//! The pipeline: one generator for each feature that the configuration asks
//! for, in the fixed order of the features, and the loop that runs it once
//! for each character of the batch.

use crate::character::score_of_term;
use crate::character::texts;
use crate::character::CharacterBuilder;
use crate::character::CharacterFeature;
use crate::character::Charuster;
use crate::character::CharusterView;
use crate::character::FeatureView;
use crate::character::PropertyView;
use crate::character::ScoreView;
use crate::character::Quirk;
use crate::dictionary::lemma_without_term_multiset;
use crate::dictionary::took_one;
use crate::dictionary::without_term;
use crate::dictionary::Dictionary;
use crate::generator::made_in_turn;
use crate::generator::midnight_after;
use crate::generator::offset_in_span;
use crate::generator::scalar_view;
use crate::generator::FeatureGenerator;
use crate::decimal::decimal;
use crate::term::lemma_joined_splits;
use crate::term::split_at_delimiter;
use crate::two_levels::all_entries;
use crate::two_levels::lemma_entries_are_joined;
use crate::two_levels::none_exhausted;
use crate::character::Level;
use crate::character::Property;
use crate::character::Stat;
use crate::config::feature_order;
use crate::config::lemma_wanted_among;
use crate::config::position;
use crate::config::wanted_among;
use crate::config::wants;
use crate::config::Config;
use crate::config::Feature;
use crate::config::FEATURE_COUNT;
use crate::config::TermSources;
use crate::dictionary::SimpleDictionary;
use crate::image::images_among;
use crate::generator::ChooseAndRemoveGenerator;
use crate::generator::ChooseGenerator;
use crate::generator::ChooseVecGenerator;
use crate::generator::ChooseVecQuirkGenerator;
use crate::generator::DateGenerator;
use crate::generator::ScalarFeature;
use crate::two_levels::taxonomy_views;
use crate::two_levels::TwoLevelsDictionary;
use vstd::multiset::Multiset;
use vstd::prelude::*;

verus! {

/// How many entries each list feature gets by current policy.
pub const LIST_SIZE: u8 = 3;

/// A generator of any of the fixed kinds.
pub enum Generator {
    Date(DateGenerator),
    Choose(ChooseGenerator),
    ChooseAndRemove(ChooseAndRemoveGenerator),
    ChooseVec(ChooseVecGenerator),
    Props(ChooseVecQuirkGenerator<Property>),
    Levels(ChooseVecQuirkGenerator<Level>),
    Stats(ChooseVecQuirkGenerator<Stat>),
}

/// The name of the generator's dictionary; no name for a generator without
/// a dictionary.
pub open spec fn dictionary_name(g: Generator) -> Seq<char> {
    match g {
        Generator::Date(_) => Seq::empty(),
        Generator::Choose(inner) => inner.dict.name_view(),
        Generator::ChooseAndRemove(inner) => inner.dict.name_view(),
        Generator::ChooseVec(inner) => inner.dict.name_view(),
        Generator::Props(inner) => inner.dict.name_view(),
        Generator::Levels(inner) => inner.dict.name_view(),
        Generator::Stats(inner) => inner.dict.name_view(),
    }
}

/// The name that the dictionary of a feature is given: the source as the
/// configuration names it, and a fixed name for the collection.
pub open spec fn source_name(config: &Config, feature: Feature) -> Seq<char> {
    match feature {
        Feature::Name => config.values_conf.names_file@,
        Feature::Surname => config.values_conf.surnames_file@,
        Feature::Nickname => config.values_conf.nicknames_file@,
        Feature::Birthdate => Seq::empty(),
        Feature::Birthplace => config.values_conf.birthplaces_file@,
        Feature::Description => config.values_conf.description_files@,
        Feature::Image => config.values_conf.images_folder@,
        Feature::Collection => "collection"@,
        Feature::Profession => config.values_conf.professions_file@,
        Feature::Hobbies => config.values_conf.hobbies_file@,
        Feature::Props => config.values_conf.props_file@,
        Feature::Levels => config.values_conf.levels_file@,
        Feature::Stats => config.values_conf.stats_file@,
    }
}

/// Whether `g` is the generator of `feature` as the pipeline assembles it:
/// of the kind that the feature calls for, tagged for it, and bound to its
/// source or parameters.
pub open spec fn wired(config: &Config, sources: &TermSources, feature: Feature, g: Generator) -> bool {
    &&& dictionary_name(g) == source_name(config, feature)
    &&& match feature {
        Feature::Name => g matches Generator::Choose(inner) && inner.tag == ScalarFeature::Name
            && inner.dict@ == texts(sources.names@),
        Feature::Surname => g matches Generator::Choose(inner) && inner.tag == ScalarFeature::Surname
            && inner.dict@ == texts(sources.surnames@),
        Feature::Nickname => g matches Generator::ChooseAndRemove(inner) && inner.tag == ScalarFeature::Nickname
            && inner.dict@ == texts(sources.nicknames@),
        Feature::Birthdate => g matches Generator::Date(inner) && inner.tag
            == ScalarFeature::Birthdate && inner.birthdate_min_year
            == config.values_conf.birthdate_min_year && inner.birthdate_max_year
            == config.values_conf.birthdate_max_year,
        Feature::Birthplace => g matches Generator::ChooseAndRemove(inner) && inner.tag == ScalarFeature::Birthplace
            && inner.dict@ == texts(sources.birthplaces@),
        Feature::Description => g matches Generator::ChooseAndRemove(inner) && inner.tag == ScalarFeature::Description
            && inner.dict@ == texts(sources.descriptions@),
        Feature::Image => g matches Generator::ChooseAndRemove(inner) && inner.tag == ScalarFeature::Image
            && inner.dict@ == images_among(texts(sources.images@)),
        Feature::Collection => g matches Generator::Choose(inner) && inner.tag
            == ScalarFeature::Collection && inner.dict@ == seq![config.values_conf.collection_name@],
        Feature::Profession => g matches Generator::Choose(inner) && inner.tag == ScalarFeature::Profession
            && inner.dict@ == texts(sources.professions@),
        Feature::Hobbies => g matches Generator::ChooseVec(inner) && inner.vec_size == LIST_SIZE
            && inner.dict@ == texts(sources.hobbies@),
        Feature::Props => g matches Generator::Props(inner) && inner.vec_size == LIST_SIZE
            && inner.dict@ == taxonomy_views(sources.props@),
        Feature::Levels => g matches Generator::Levels(inner) && inner.vec_size == LIST_SIZE
            && inner.dict@ == texts(sources.levels@),
        Feature::Stats => g matches Generator::Stats(inner) && inner.vec_size == LIST_SIZE
            && inner.dict@ == texts(sources.stats@),
    }
}

/// Whether `generators` are the generators of the features that the
/// configuration asks for among the first `upto` features, in order.
pub open spec fn assembled(
    config: &Config,
    sources: &TermSources,
    generators: Seq<Generator>,
    upto: int,
) -> bool {
    let features = wanted_among(config, feature_order().take(upto));
    &&& generators.len() == features.len()
    &&& forall|k: int|
        0 <= k < generators.len() ==> wired(config, sources, features[k], #[trigger] generators[k])
}

/// Assembles the pipeline: for each feature that the configuration asks
/// for, in the order of the features, its generator.
pub fn create_generators(config: &Config, sources: TermSources) -> (generators: Vec<Generator>)
    ensures
        assembled(config, &sources, generators@, FEATURE_COUNT as int),
{
    let mut generators: Vec<Generator> = Vec::new();
    let ghost given = sources;
    let TermSources {
        names,
        surnames,
        nicknames,
        birthplaces,
        descriptions,
        images,
        professions,
        hobbies,
        props,
        levels,
        stats,
    } = sources;
    proof {
        assert(feature_order().take(0) =~= Seq::empty());
        assert(assembled(config, &given, generators@, 0));
    }
    if config.wants(Feature::Name) {
        let dict = SimpleDictionary::new(config.values_conf.names_file.clone(), names);
        generators.push(Generator::Choose(ChooseGenerator::new(dict, ScalarFeature::Name)));
    }
    proof {
        assert(feature_order().take(1).drop_last() =~= feature_order().take(0));
        assert(feature_order().take(1).last() == Feature::Name);
        assert(assembled(config, &given, generators@, 1));
    }
    if config.wants(Feature::Surname) {
        let dict = SimpleDictionary::new(config.values_conf.surnames_file.clone(), surnames);
        generators.push(Generator::Choose(ChooseGenerator::new(dict, ScalarFeature::Surname)));
    }
    proof {
        assert(feature_order().take(2).drop_last() =~= feature_order().take(1));
        assert(feature_order().take(2).last() == Feature::Surname);
        assert(assembled(config, &given, generators@, 2));
    }
    if config.wants(Feature::Nickname) {
        let dict = SimpleDictionary::new(config.values_conf.nicknames_file.clone(), nicknames);
        generators.push(Generator::ChooseAndRemove(ChooseAndRemoveGenerator::new(dict, ScalarFeature::Nickname)));
    }
    proof {
        assert(feature_order().take(3).drop_last() =~= feature_order().take(2));
        assert(feature_order().take(3).last() == Feature::Nickname);
        assert(assembled(config, &given, generators@, 3));
    }
    if config.wants(Feature::Birthdate) {
        let min_year = config.values_conf.birthdate_min_year;
        let max_year = config.values_conf.birthdate_max_year;
        generators.push(
            Generator::Date(DateGenerator::new(min_year, max_year, ScalarFeature::Birthdate)),
        );
    }
    proof {
        assert(feature_order().take(4).drop_last() =~= feature_order().take(3));
        assert(feature_order().take(4).last() == Feature::Birthdate);
        assert(assembled(config, &given, generators@, 4));
    }
    if config.wants(Feature::Birthplace) {
        let dict = SimpleDictionary::new(config.values_conf.birthplaces_file.clone(), birthplaces);
        generators.push(Generator::ChooseAndRemove(ChooseAndRemoveGenerator::new(dict, ScalarFeature::Birthplace)));
    }
    proof {
        assert(feature_order().take(5).drop_last() =~= feature_order().take(4));
        assert(feature_order().take(5).last() == Feature::Birthplace);
        assert(assembled(config, &given, generators@, 5));
    }
    if config.wants(Feature::Description) {
        let dict = SimpleDictionary::new(config.values_conf.description_files.clone(), descriptions);
        generators.push(Generator::ChooseAndRemove(ChooseAndRemoveGenerator::new(dict, ScalarFeature::Description)));
    }
    proof {
        assert(feature_order().take(6).drop_last() =~= feature_order().take(5));
        assert(feature_order().take(6).last() == Feature::Description);
        assert(assembled(config, &given, generators@, 6));
    }
    if config.wants(Feature::Image) {
        let dict = SimpleDictionary::new_from_folder(
            config.values_conf.images_folder.clone(),
            images,
        );
        generators.push(Generator::ChooseAndRemove(ChooseAndRemoveGenerator::new(dict, ScalarFeature::Image)));
    }
    proof {
        assert(feature_order().take(7).drop_last() =~= feature_order().take(6));
        assert(feature_order().take(7).last() == Feature::Image);
        assert(assembled(config, &given, generators@, 7));
    }
    if config.wants(Feature::Collection) {
        let dict = SimpleDictionary::new_with_single_term(
            String::from_str("collection"),
            config.values_conf.collection_name.clone(),
        );
        generators.push(Generator::Choose(ChooseGenerator::new(dict, ScalarFeature::Collection)));
    }
    proof {
        assert(feature_order().take(8).drop_last() =~= feature_order().take(7));
        assert(feature_order().take(8).last() == Feature::Collection);
        assert(assembled(config, &given, generators@, 8));
    }
    if config.wants(Feature::Profession) {
        let dict = SimpleDictionary::new(config.values_conf.professions_file.clone(), professions);
        generators.push(Generator::Choose(ChooseGenerator::new(dict, ScalarFeature::Profession)));
    }
    proof {
        assert(feature_order().take(9).drop_last() =~= feature_order().take(8));
        assert(feature_order().take(9).last() == Feature::Profession);
        assert(assembled(config, &given, generators@, 9));
    }
    if config.wants(Feature::Hobbies) {
        let dict = SimpleDictionary::new(config.values_conf.hobbies_file.clone(), hobbies);
        generators.push(Generator::ChooseVec(ChooseVecGenerator::new(dict, LIST_SIZE)));
    }
    proof {
        assert(feature_order().take(10).drop_last() =~= feature_order().take(9));
        assert(feature_order().take(10).last() == Feature::Hobbies);
        assert(assembled(config, &given, generators@, 10));
    }
    if config.wants(Feature::Props) {
        let dict = TwoLevelsDictionary::new(config.values_conf.props_file.clone(), props);
        generators.push(Generator::Props(ChooseVecQuirkGenerator::new(dict, LIST_SIZE)));
    }
    proof {
        assert(feature_order().take(11).drop_last() =~= feature_order().take(10));
        assert(feature_order().take(11).last() == Feature::Props);
        assert(assembled(config, &given, generators@, 11));
    }
    if config.wants(Feature::Levels) {
        let dict = SimpleDictionary::new(config.values_conf.levels_file.clone(), levels);
        generators.push(Generator::Levels(ChooseVecQuirkGenerator::new(dict, LIST_SIZE)));
    }
    proof {
        assert(feature_order().take(12).drop_last() =~= feature_order().take(11));
        assert(feature_order().take(12).last() == Feature::Levels);
        assert(assembled(config, &given, generators@, 12));
    }
    if config.wants(Feature::Stats) {
        let dict = SimpleDictionary::new(config.values_conf.stats_file.clone(), stats);
        generators.push(Generator::Stats(ChooseVecQuirkGenerator::new(dict, LIST_SIZE)));
    }
    proof {
        assert(feature_order().take(13).drop_last() =~= feature_order().take(12));
        assert(feature_order().take(13).last() == Feature::Stats);
        assert(assembled(config, &given, generators@, 13));
    }
    generators
}

/// Whether each property of the list is what the term at its place splits
/// into.
pub open spec fn props_from(props: Seq<PropertyView>, terms: Seq<Seq<char>>) -> bool {
    &&& props.len() == terms.len()
    &&& forall|k: int|
        0 <= k < props.len() ==> split_at_delimiter(#[trigger] terms[k]) == Some(
            (props[k].prop_type, props[k].name),
        )
}

/// Whether each score of the list is one that policy hands out for the term
/// at its place.
pub open spec fn scores_from(scores: Seq<ScoreView>, terms: Seq<Seq<char>>) -> bool {
    &&& scores.len() == terms.len()
    &&& forall|k: int| 0 <= k < scores.len() ==> score_of_term(#[trigger] scores[k], terms[k])
}

/// A list of properties made from terms sampled without replacement from
/// `pool`.
pub open spec fn props_drawn(props: Seq<PropertyView>, size: int, pool: Multiset<Seq<char>>) -> bool {
    props.len() == size && exists|terms: Seq<Seq<char>>|
        #[trigger] props_from(props, terms) && terms.to_multiset().subset_of(pool)
}

/// A list of scores made from terms sampled without replacement from
/// `pool`.
pub open spec fn scores_drawn(scores: Seq<ScoreView>, size: int, pool: Multiset<Seq<char>>) -> bool {
    scores.len() == size && exists|terms: Seq<Seq<char>>|
        #[trigger] scores_from(scores, terms) && terms.to_multiset().subset_of(pool)
}

/// What a feature value looks like from outside, if there is one.
pub open spec fn seen(feature: Option<CharacterFeature>) -> Option<FeatureView> {
    match feature {
        Some(f) => Some(f@),
        None => None,
    }
}

/// One run of a generator: what it was, what it is afterwards, and what it
/// handed out. Only the generator that samples destructively changes; each
/// kind says when it hands out nothing and what it hands out otherwise.
pub open spec fn ran(before: Generator, after: Generator, feature: Option<FeatureView>) -> bool {
    match before {
        Generator::Date(g) => {
            &&& after == before
            &&& g.birthdate_min_year > g.birthdate_max_year <==> feature is None
            &&& feature matches Some(f) ==> exists|offset: int|
                offset_in_span(g.birthdate_min_year as int, g.birthdate_max_year as int, offset)
                    && f == scalar_view(
                    g.tag,
                    decimal(#[trigger] midnight_after(g.birthdate_min_year as int, offset)),
                )
        },
        Generator::Choose(g) => {
            &&& after == before
            &&& g.dict@.len() == 0 <==> feature is None
            &&& feature matches Some(f) ==> exists|i: int|
                0 <= i < g.dict@.len() && f == scalar_view(g.tag, #[trigger] g.dict@[i])
        },
        Generator::ChooseAndRemove(g) => {
            &&& after matches Generator::ChooseAndRemove(h)
            &&& h.tag == g.tag
            &&& h.dict.name_view() == g.dict.name_view()
            &&& g.dict@.len() == 0 <==> feature is None
            &&& feature is None ==> h.dict@ == g.dict@
            &&& feature matches Some(f) ==> exists|term: Seq<char>|
                took_one(g.dict@, h.dict@, term) && f == #[trigger] scalar_view(g.tag, term)
        },
        Generator::ChooseVec(g) => {
            &&& after == before
            &&& feature is None <==> g.vec_size > 0 && g.dict@.len() == 0
            &&& feature matches Some(f) ==> f matches FeatureView::Hobbies(picks) && picks.len()
                == g.vec_size && forall|k: int|
                0 <= k < picks.len() ==> g.dict@.contains(#[trigger] picks[k])
        },
        Generator::Props(g) => {
            &&& after == before
            &&& feature matches Some(f) ==> f matches FeatureView::Props(props) && props_drawn(
                props,
                g.vec_size as int,
                all_entries(g.dict@),
            )
            &&& all_entries(g.dict@).len() < g.vec_size ==> feature is None
            &&& none_exhausted(g.dict@) && all_entries(g.dict@).len() >= g.vec_size
                ==> feature is Some
        },
        Generator::Levels(g) => {
            &&& after == before
            &&& feature is Some <==> g.dict@.len() >= g.vec_size
            &&& feature matches Some(f) ==> f matches FeatureView::Levels(scores) && scores_drawn(
                scores,
                g.vec_size as int,
                g.dict@.to_multiset(),
            )
        },
        Generator::Stats(g) => {
            &&& after == before
            &&& feature is Some <==> g.dict@.len() >= g.vec_size
            &&& feature matches Some(f) ==> f matches FeatureView::Stats(scores) && scores_drawn(
                scores,
                g.vec_size as int,
                g.dict@.to_multiset(),
            )
        },
    }
}

impl FeatureGenerator for Generator {
    fn generate(&mut self) -> (feature: Option<CharacterFeature>)
        ensures
            ran(*old(self), *final(self), seen(feature)),
    {
        match self {
            Generator::Date(g) => g.generate(),
            Generator::Choose(g) => g.generate(),
            Generator::ChooseAndRemove(g) => g.generate(),
            Generator::ChooseVec(g) => g.generate(),
            Generator::Props(g) => {
                let feature = g.generate();
                proof {
                    let pool = all_entries(g.dict@);
                    assert forall|term: Seq<char>| pool.count(term) > 0 implies #[trigger] Property::fits(
                        term,
                    ) by {
                        lemma_entries_are_joined(g.dict@, term);
                        let (k, j) = choose|k: int, j: int|
                            0 <= k < g.dict@.len() && 0 <= j < g.dict@[k].terms.len() && term
                                == crate::two_levels::joined(
                                g.dict@[k].kind,
                                #[trigger] g.dict@[k].terms[j],
                            );
                        lemma_joined_splits(g.dict@[k].kind, g.dict@[k].terms[j]);
                    }
                    if feature is Some {
                        let f = feature->0;
                        let (quirks, terms) = choose|quirks: Seq<Property>, terms: Seq<Seq<char>>|
                            f@ == Property::feature_of(quirks) && #[trigger] made_in_turn(
                                quirks,
                                terms,
                            ) && quirks.len() == g.vec_size && terms.to_multiset().subset_of(pool);
                        let props = crate::character::property_views(quirks);
                        assert forall|k: int| 0 <= k < props.len() implies split_at_delimiter(
                            #[trigger] terms[k],
                        ) == Some((props[k].prop_type, props[k].name)) by {
                            assert(quirks[k].made_from(terms[k]));
                        }
                        assert(props_from(props, terms));
                    }
                }
                feature
            },
            Generator::Levels(g) => {
                let feature = g.generate();
                proof {
                    broadcast use vstd::seq_lib::group_to_multiset_ensures;

                    let pool = g.dict@.to_multiset();
                    if feature is Some {
                        let f = feature->0;
                        let (quirks, terms) = choose|quirks: Seq<Level>, terms: Seq<Seq<char>>|
                            f@ == Level::feature_of(quirks) && #[trigger] made_in_turn(
                                quirks,
                                terms,
                            ) && quirks.len() == g.vec_size && terms.to_multiset().subset_of(pool);
                        let scores = crate::character::level_views(quirks);
                        assert forall|k: int| 0 <= k < scores.len() implies score_of_term(
                            #[trigger] scores[k],
                            terms[k],
                        ) by {
                            assert(quirks[k].made_from(terms[k]));
                        }
                        assert(scores_from(scores, terms));
                    }
                }
                feature
            },
            Generator::Stats(g) => {
                let feature = g.generate();
                proof {
                    broadcast use vstd::seq_lib::group_to_multiset_ensures;

                    let pool = g.dict@.to_multiset();
                    if feature is Some {
                        let f = feature->0;
                        let (quirks, terms) = choose|quirks: Seq<Stat>, terms: Seq<Seq<char>>|
                            f@ == Stat::feature_of(quirks) && #[trigger] made_in_turn(
                                quirks,
                                terms,
                            ) && quirks.len() == g.vec_size && terms.to_multiset().subset_of(pool);
                        let scores = crate::character::stat_views(quirks);
                        assert forall|k: int| 0 <= k < scores.len() implies score_of_term(
                            #[trigger] scores[k],
                            terms[k],
                        ) by {
                            assert(quirks[k].made_from(terms[k]));
                        }
                        assert(scores_from(scores, terms));
                    }
                }
                feature
            },
        }
    }
}

/// A record with one feature value put into the field it is tagged for.
pub open spec fn put(record: CharusterView, feature: FeatureView) -> CharusterView {
    match feature {
        FeatureView::Name(value) => CharusterView { name: value, ..record },
        FeatureView::Surname(value) => CharusterView { surname: value, ..record },
        FeatureView::Nickname(value) => CharusterView { nickname: value, ..record },
        FeatureView::Birthdate(value) => CharusterView { birthdate: value, ..record },
        FeatureView::Birthplace(value) => CharusterView { birthplace: value, ..record },
        FeatureView::Description(value) => CharusterView { description: value, ..record },
        FeatureView::Image(value) => CharusterView { image: value, ..record },
        FeatureView::Collection(value) => CharusterView { collection: value, ..record },
        FeatureView::Profession(value) => CharusterView { profession: value, ..record },
        FeatureView::Hobbies(value) => CharusterView { hobbies: value, ..record },
        FeatureView::Props(value) => CharusterView { props: value, ..record },
        FeatureView::Levels(value) => CharusterView { levels: value, ..record },
        FeatureView::Stats(value) => CharusterView { stats: value, ..record },
    }
}

/// A record after a generator's run: with the value put in where there is
/// one, as it was where there is none.
pub open spec fn put_if_any(record: CharusterView, feature: Option<FeatureView>) -> CharusterView {
    match feature {
        Some(f) => put(record, f),
        None => record,
    }
}

/// Hands a feature value to the setter of the field it is tagged for.
pub fn apply_feature(builder: &mut CharacterBuilder, feature: CharacterFeature)
    ensures
        final(builder)@ == put(old(builder)@, feature@),
{
    match feature {
        CharacterFeature::NAME(value) => {
            builder.name(value);
        },
        CharacterFeature::SURNAME(value) => {
            builder.surname(value);
        },
        CharacterFeature::NICKNAME(value) => {
            builder.nickname(value);
        },
        CharacterFeature::BIRTHDATE(value) => {
            builder.birthdate(value);
        },
        CharacterFeature::BIRTHPLACE(value) => {
            builder.birthplace(value);
        },
        CharacterFeature::DESCRIPTION(value) => {
            builder.description(value);
        },
        CharacterFeature::IMAGE(value) => {
            builder.image(value);
        },
        CharacterFeature::COLLECTION(value) => {
            builder.collection(value);
        },
        CharacterFeature::PROFESSION(value) => {
            builder.profession(value);
        },
        CharacterFeature::HOBBIES(value) => {
            builder.hobbies(value);
        },
        CharacterFeature::PROPS(value) => {
            builder.props(value);
        },
        CharacterFeature::LEVELS(value) => {
            builder.levels(value);
        },
        CharacterFeature::STATS(value) => {
            builder.stats(value);
        },
    }
}

/// Whether the record's field for a feature is unset.
pub open spec fn field_blank(record: CharusterView, feature: Feature) -> bool {
    match feature {
        Feature::Name => record.name.len() == 0,
        Feature::Surname => record.surname.len() == 0,
        Feature::Nickname => record.nickname.len() == 0,
        Feature::Birthdate => record.birthdate.len() == 0,
        Feature::Birthplace => record.birthplace.len() == 0,
        Feature::Description => record.description.len() == 0,
        Feature::Image => record.image.len() == 0,
        Feature::Collection => record.collection.len() == 0,
        Feature::Profession => record.profession.len() == 0,
        Feature::Hobbies => record.hobbies.len() == 0,
        Feature::Props => record.props.len() == 0,
        Feature::Levels => record.levels.len() == 0,
        Feature::Stats => record.stats.len() == 0,
    }
}

/// Whether the record's field for a feature holds what the feature's
/// generator hands out for the character at place `index` of the batch,
/// counted from 0, and is unset where the generator hands out nothing.
///
/// A feature that samples with replacement has a term of its source while
/// the source has one. A feature that samples without replacement has one
/// for the first characters of the batch, as many as the source has terms.
/// The date of birth is a day between the two years. A list feature has
/// its full length, drawn from its source, or is unset.
pub open spec fn field_ok(
    config: &Config,
    sources: &TermSources,
    feature: Feature,
    record: CharusterView,
    index: int,
) -> bool {
    match feature {
        Feature::Name => if sources.names@.len() > 0 {
            texts(sources.names@).contains(record.name)
        } else {
            record.name.len() == 0
        },
        Feature::Surname => if sources.surnames@.len() > 0 {
            texts(sources.surnames@).contains(record.surname)
        } else {
            record.surname.len() == 0
        },
        Feature::Nickname => if index < sources.nicknames@.len() {
            texts(sources.nicknames@).contains(record.nickname)
        } else {
            record.nickname.len() == 0
        },
        Feature::Birthdate => {
            let min_year = config.values_conf.birthdate_min_year as int;
            let max_year = config.values_conf.birthdate_max_year as int;
            if min_year <= max_year {
                exists|offset: int|
                    offset_in_span(min_year, max_year, offset) && record.birthdate == decimal(
                        #[trigger] midnight_after(min_year, offset),
                    )
            } else {
                record.birthdate.len() == 0
            }
        },
        Feature::Birthplace => if index < sources.birthplaces@.len() {
            texts(sources.birthplaces@).contains(record.birthplace)
        } else {
            record.birthplace.len() == 0
        },
        Feature::Description => if index < sources.descriptions@.len() {
            texts(sources.descriptions@).contains(record.description)
        } else {
            record.description.len() == 0
        },
        Feature::Image => if index < images_among(texts(sources.images@)).len() {
            images_among(texts(sources.images@)).contains(record.image)
        } else {
            record.image.len() == 0
        },
        Feature::Collection => record.collection == config.values_conf.collection_name@,
        Feature::Profession => if sources.professions@.len() > 0 {
            texts(sources.professions@).contains(record.profession)
        } else {
            record.profession.len() == 0
        },
        Feature::Hobbies => if sources.hobbies@.len() > 0 {
            record.hobbies.len() == LIST_SIZE && forall|k: int|
                0 <= k < record.hobbies.len() ==> texts(sources.hobbies@).contains(
                    #[trigger] record.hobbies[k],
                )
        } else {
            record.hobbies.len() == 0
        },
        Feature::Props => {
            let pool = all_entries(taxonomy_views(sources.props@));
            &&& record.props.len() == 0 || props_drawn(record.props, LIST_SIZE as int, pool)
            &&& pool.len() < LIST_SIZE ==> record.props.len() == 0
            &&& none_exhausted(taxonomy_views(sources.props@)) && pool.len() >= LIST_SIZE
                ==> record.props.len() == LIST_SIZE
        },
        Feature::Levels => if sources.levels@.len() >= LIST_SIZE {
            scores_drawn(record.levels, LIST_SIZE as int, texts(sources.levels@).to_multiset())
        } else {
            record.levels.len() == 0
        },
        Feature::Stats => if sources.stats@.len() >= LIST_SIZE {
            scores_drawn(record.stats, LIST_SIZE as int, texts(sources.stats@).to_multiset())
        } else {
            record.stats.len() == 0
        },
    }
}

/// The state of one field of a finished record: what its feature calls for
/// where the configuration asks for the feature, unset where it does not.
pub open spec fn field_settled(
    config: &Config,
    sources: &TermSources,
    feature: Feature,
    record: CharusterView,
    index: int,
) -> bool {
    if wants(config, feature) {
        field_ok(config, sources, feature, record, index)
    } else {
        field_blank(record, feature)
    }
}

/// Whether a record is one that the pipeline yields for the character at
/// place `index` of the batch: each feature that the configuration asks for
/// holds what its generator hands out, and every other field is unset.
pub open spec fn record_ok(
    config: &Config,
    sources: &TermSources,
    record: CharusterView,
    index: int,
) -> bool {
    forall|feature: Feature| #[trigger] field_settled(config, sources, feature, record, index)
}

/// The source of a feature that is sampled without replacement from one
/// batch to the end: the terms that its dictionary starts with. Other
/// features have none.
pub open spec fn spent_source(sources: &TermSources, feature: Feature) -> Seq<Seq<char>> {
    match feature {
        Feature::Nickname => texts(sources.nicknames@),
        Feature::Birthplace => texts(sources.birthplaces@),
        Feature::Description => texts(sources.descriptions@),
        Feature::Image => images_among(texts(sources.images@)),
        _ => Seq::empty(),
    }
}

/// Whether a feature is sampled without replacement across the batch.
pub open spec fn spends(feature: Feature) -> bool {
    feature == Feature::Nickname || feature == Feature::Birthplace || feature
        == Feature::Description || feature == Feature::Image
}

/// The record's text for a feature that is sampled without replacement.
pub open spec fn spent_field(record: CharusterView, feature: Feature) -> Seq<char> {
    match feature {
        Feature::Nickname => record.nickname,
        Feature::Birthplace => record.birthplace,
        Feature::Description => record.description,
        Feature::Image => record.image,
        _ => Seq::empty(),
    }
}

/// What a feature that is sampled without replacement has handed to the
/// records of a batch: the texts of the first records, as many as the
/// source has terms.
pub open spec fn handed_out(
    sources: &TermSources,
    feature: Feature,
    batch: Seq<CharusterView>,
) -> Seq<Seq<char>> {
    let count = if batch.len() <= spent_source(sources, feature).len() {
        batch.len()
    } else {
        spent_source(sources, feature).len()
    };
    Seq::new(count, |c: int| spent_field(batch[c], feature))
}

/// Whether a batch has each term of a source at most as often as the source
/// holds it: a source without repeats gives no two records the same term.
pub open spec fn drawn_once(
    sources: &TermSources,
    feature: Feature,
    batch: Seq<CharusterView>,
) -> bool {
    handed_out(sources, feature, batch).to_multiset().subset_of(
        spent_source(sources, feature).to_multiset(),
    )
}

/// The feature whose field a tag stands for.
pub open spec fn feature_of_tag(tag: ScalarFeature) -> Feature {
    match tag {
        ScalarFeature::Name => Feature::Name,
        ScalarFeature::Surname => Feature::Surname,
        ScalarFeature::Nickname => Feature::Nickname,
        ScalarFeature::Birthdate => Feature::Birthdate,
        ScalarFeature::Birthplace => Feature::Birthplace,
        ScalarFeature::Description => Feature::Description,
        ScalarFeature::Image => Feature::Image,
        ScalarFeature::Collection => Feature::Collection,
        ScalarFeature::Profession => Feature::Profession,
    }
}

/// Whether `g` is the generator of `feature` after the records of `batch`:
/// as assembled, but for the dictionaries that are sampled without
/// replacement, which hold what their source held less what they handed to
/// the batch.
pub open spec fn staged(
    config: &Config,
    sources: &TermSources,
    feature: Feature,
    g: Generator,
    batch: Seq<CharusterView>,
) -> bool {
    if spends(feature) {
        &&& g matches Generator::ChooseAndRemove(inner)
        &&& feature_of_tag(inner.tag) == feature
        &&& inner.dict@.to_multiset().add(handed_out(sources, feature, batch).to_multiset())
            =~= spent_source(sources, feature).to_multiset()
    } else {
        wired(config, sources, feature, g)
    }
}

/// A generator as assembled is the generator before any record.
pub proof fn lemma_wired_is_staged(
    config: &Config,
    sources: &TermSources,
    feature: Feature,
    g: Generator,
)
    requires
        wired(config, sources, feature, g),
    ensures
        staged(config, sources, feature, g, Seq::empty()),
{
    broadcast use vstd::seq_lib::group_to_multiset_ensures;

    assert(handed_out(sources, feature, Seq::empty()) =~= Seq::empty());
    assert(handed_out(sources, feature, Seq::empty()).to_multiset() =~= Multiset::empty());
}

/// One run of a feature's generator on a record whose field for the feature
/// is unset: the generator has moved on by this record, the field holds what
/// the feature calls for, and no other field changes.
pub proof fn lemma_run_fills_field(
    config: &Config,
    sources: &TermSources,
    feature: Feature,
    before: Generator,
    after: Generator,
    out: Option<FeatureView>,
    record: CharusterView,
    batch: Seq<CharusterView>,
)
    requires
        wants(config, feature),
        staged(config, sources, feature, before, batch),
        ran(before, after, out),
        field_blank(record, feature),
    ensures
        staged(config, sources, feature, after, batch.push(put_if_any(record, out))),
        field_ok(config, sources, feature, put_if_any(record, out), batch.len() as int),
        forall|other: Feature, index: int|
            other != feature ==> #[trigger] field_ok(
                config,
                sources,
                other,
                put_if_any(record, out),
                index,
            ) == field_ok(config, sources, other, record, index),
        forall|other: Feature|
            other != feature ==> #[trigger] field_blank(put_if_any(record, out), other)
                == field_blank(record, other),
        forall|other: Feature|
            other != feature ==> #[trigger] spent_field(put_if_any(record, out), other)
                == spent_field(record, other),
{
    broadcast use vstd::seq_lib::group_to_multiset_ensures;

    let new = put_if_any(record, out);
    match before {
        Generator::ChooseAndRemove(g) => {
            let h = after->ChooseAndRemove_0;
            let source = spent_source(sources, feature);
            let given = handed_out(sources, feature, batch);
            let given_after = handed_out(sources, feature, batch.push(new));
            assert(g.dict@.len() + given.len() == source.len()) by {
                assert(g.dict@.to_multiset().add(given.to_multiset()).len() == source.len());
            }
            if out is Some {
                let term = choose|term: Seq<char>|
                    took_one(g.dict@, h.dict@, term) && out->0 == #[trigger] scalar_view(
                        g.tag,
                        term,
                    );
                let i = choose|i: int|
                    0 <= i < g.dict@.len() && #[trigger] g.dict@[i] == term && h.dict@
                        == without_term(g.dict@, i);
                lemma_without_term_multiset(g.dict@, i);
                assert(spent_field(new, feature) == term);
                assert(given_after =~= given.push(term));
                assert(source.to_multiset().count(term) > 0);
                assert(source.contains(term));
            } else {
                assert(given_after =~= given);
            }
        },
        Generator::Choose(g) => {
            if feature == Feature::Collection {
                assert(g.dict@[0] == config.values_conf.collection_name@);
            }
        },
        _ => {},
    }
}

/// A generator that has not run for the record in the making does not see
/// the record: its stage after the batch with the record is its stage after
/// the batch with any record that has the same text for its feature.
pub proof fn lemma_stage_reads_own_field(
    config: &Config,
    sources: &TermSources,
    feature: Feature,
    g: Generator,
    batch: Seq<CharusterView>,
    record: CharusterView,
    other: CharusterView,
)
    requires
        spent_field(record, feature) == spent_field(other, feature),
    ensures
        staged(config, sources, feature, g, batch.push(record)) == staged(
            config,
            sources,
            feature,
            g,
            batch.push(other),
        ),
{
    assert(handed_out(sources, feature, batch.push(record)) =~= handed_out(
        sources,
        feature,
        batch.push(other),
    ));
}

/// Whether `generators` is the pipeline after the records of `batch`: the
/// generators of the features that the configuration asks for, in pipeline
/// order, each where the batch has left it.
pub open spec fn pipeline_at(
    config: &Config,
    sources: &TermSources,
    generators: Seq<Generator>,
    batch: Seq<CharusterView>,
) -> bool {
    let features = wanted_among(config, feature_order());
    &&& generators.len() == features.len()
    &&& forall|k: int|
        0 <= k < generators.len() ==> staged(
            config,
            sources,
            features[k],
            #[trigger] generators[k],
            batch,
        )
}

/// The state of one field while a character is being generated: what its
/// feature calls for once the feature's generator has run, unset before.
pub open spec fn field_so_far(
    config: &Config,
    sources: &TermSources,
    ran_already: Seq<Feature>,
    feature: Feature,
    record: CharusterView,
    index: int,
) -> bool {
    if ran_already.contains(feature) {
        field_ok(config, sources, feature, record, index)
    } else {
        field_blank(record, feature)
    }
}

/// Whether a batch is one that the pipeline yields: each record is what the
/// pipeline yields at its place, and no feature that is sampled without
/// replacement has handed out more of a term than its source held.
pub open spec fn batch_ok(config: &Config, sources: &TermSources, batch: Seq<CharusterView>) -> bool {
    &&& forall|c: int|
        0 <= c < batch.len() ==> record_ok(config, sources, #[trigger] batch[c], c)
    &&& forall|feature: Feature|
        wants(config, feature) && spends(feature) ==> #[trigger] drawn_once(
            sources,
            feature,
            batch,
        )
}

/// The views of a list of records.
pub open spec fn record_views(records: Seq<Charuster>) -> Seq<CharusterView> {
    records.map_values(|r: Charuster| r@)
}

/// Runs every generator of the pipeline once, in order, and builds the
/// record of one character from what they hand out.
fn generate_charuster(
    config: &Config,
    generators: &mut Vec<Generator>,
    Ghost(sources): Ghost<TermSources>,
    Ghost(batch): Ghost<Seq<CharusterView>>,
) -> (record: Charuster)
    requires
        pipeline_at(config, &sources, old(generators)@, batch),
    ensures
        pipeline_at(config, &sources, final(generators)@, batch.push(record@)),
        record_ok(config, &sources, record@, batch.len() as int),
{
    let ghost features = wanted_among(config, feature_order());
    let ghost done = batch.len() as int;
    proof {
        lemma_wanted_among(config, FEATURE_COUNT as int);
        assert(feature_order().take(FEATURE_COUNT as int) =~= feature_order());
    }
    let mut builder = CharacterBuilder::new();
    let gen_len = generators.len();
    let mut i: usize = 0;
    proof {
        assert(features.take(0) =~= Seq::empty());
    }
    while i < gen_len
        invariant
            done == batch.len(),
            i <= gen_len,
            gen_len == generators@.len(),
            gen_len == features.len(),
            features == wanted_among(config, feature_order()),
            forall|k: int|
                0 <= k < features.len() ==> wants(config, #[trigger] features[k]),
            forall|a: int, b: int|
                0 <= a < b < features.len() ==> position(#[trigger] features[a]) < position(
                    #[trigger] features[b],
                ),
            forall|k: int|
                0 <= k < i ==> staged(
                    config,
                    &sources,
                    features[k],
                    #[trigger] generators@[k],
                    batch.push(builder@),
                ),
            forall|k: int|
                i <= k < gen_len ==> staged(
                    config,
                    &sources,
                    features[k],
                    #[trigger] generators@[k],
                    batch,
                ),
            forall|feature: Feature| #[trigger]
                field_so_far(config, &sources, features.take(i as int), feature, builder@, done),
        decreases gen_len - i,
    {
        let ghost before = generators@[i as int];
        let ghost record = builder@;
        let ghost earlier = generators@;
        let feature = generators[i].generate();
        let ghost out = seen(feature);
        match feature {
            Some(f) => {
                apply_feature(&mut builder, f);
            },
            None => {},
        }
        proof {
            let current = features[i as int];
            assert(generators@ =~= earlier.update(i as int, generators@[i as int]));
            assert(!features.take(i as int).contains(current)) by {
                if features.take(i as int).contains(current) {
                    let k = choose|k: int|
                        0 <= k < features.take(i as int).len() && features.take(i as int)[k]
                            == current;
                    assert(position(features[k]) < position(features[i as int]));
                }
            }
            assert(field_so_far(config, &sources, features.take(i as int), current, record, done));
            lemma_run_fills_field(
                config,
                &sources,
                current,
                before,
                generators@[i as int],
                out,
                record,
                batch,
            );
            assert forall|k: int| 0 <= k < i + 1 implies staged(
                config,
                &sources,
                features[k],
                #[trigger] generators@[k],
                batch.push(builder@),
            ) by {
                if k < i {
                    assert(position(features[k]) < position(features[i as int]));
                    assert(generators@[k] == earlier[k]);
                    lemma_stage_reads_own_field(
                        config,
                        &sources,
                        features[k],
                        generators@[k],
                        batch,
                        record,
                        builder@,
                    );
                }
            }
            assert(features.take(i + 1) =~= features.take(i as int).push(current));
            assert forall|feature: Feature| #[trigger]
                field_so_far(
                    config,
                    &sources,
                    features.take(i + 1),
                    feature,
                    builder@,
                    done,
                ) by {
                assert(field_so_far(
                    config,
                    &sources,
                    features.take(i as int),
                    feature,
                    record,
                    done,
                ));
                if feature == current {
                    assert(features.take(i + 1)[i as int] == current);
                } else {
                    if features.take(i as int).contains(feature) {
                        let k = choose|k: int|
                            0 <= k < features.take(i as int).len() && features.take(i as int)[k]
                                == feature;
                        assert(features.take(i + 1)[k] == feature);
                    }
                }
            }
        }
        i = i + 1;
    }
    let record = builder.build();
    proof {
        assert(features.take(gen_len as int) =~= features);
        assert forall|feature: Feature| #[trigger]
            field_settled(config, &sources, feature, record@, done) by {
            assert(field_so_far(config, &sources, features, feature, record@, done));
            if !wants(config, feature) && features.contains(feature) {
                let k = choose|k: int| 0 <= k < features.len() && features[k] == feature;
                assert(wants(config, features[k]));
            }
        }
    }
    record
}

/// Generates the batch: as many characters as the configuration asks for,
/// each built from one run of the pipeline that is assembled from the
/// configuration and the sources.
pub fn generate_charusters(config: &Config, sources: TermSources) -> (charusters: Vec<Charuster>)
    ensures
        charusters@.len() == config.execution_conf.charusters_nums,
        batch_ok(config, &sources, record_views(charusters@)),
{
    let ghost given = sources;
    let mut charusters: Vec<Charuster> = Vec::new();
    let mut generators = create_generators(config, sources);
    let char_len = config.execution_conf.charusters_nums;
    let mut done: u32 = 0;
    proof {
        assert(feature_order().take(FEATURE_COUNT as int) =~= feature_order());
        assert(record_views(charusters@) =~= Seq::empty());
        assert forall|k: int| 0 <= k < generators@.len() implies staged(
            config,
            &given,
            wanted_among(config, feature_order())[k],
            #[trigger] generators@[k],
            Seq::empty(),
        ) by {
            lemma_wired_is_staged(
                config,
                &given,
                wanted_among(config, feature_order())[k],
                generators@[k],
            );
        }
    }
    while done < char_len
        invariant
            done <= char_len,
            charusters@.len() == done,
            pipeline_at(config, &given, generators@, record_views(charusters@)),
            forall|c: int|
                0 <= c < charusters@.len() ==> record_ok(
                    config,
                    &given,
                    #[trigger] record_views(charusters@)[c],
                    c,
                ),
        decreases char_len - done,
    {
        let ghost batch = record_views(charusters@);
        let charuster = generate_charuster(config, &mut generators, Ghost(given), Ghost(batch));
        proof {
            assert(record_views(charusters@.push(charuster)) =~= batch.push(charuster@));
        }
        charusters.push(charuster);
        done = done + 1;
    }
    proof {
        let batch = record_views(charusters@);
        let features = wanted_among(config, feature_order());
        lemma_wanted_among(config, FEATURE_COUNT as int);
        assert forall|feature: Feature| wants(config, feature) && spends(feature) implies #[trigger] drawn_once(
            &given,
            feature,
            batch,
        ) by {
            assert(features.contains(feature));
            let k = choose|k: int| 0 <= k < features.len() && features[k] == feature;
            assert(staged(config, &given, features[k], generators@[k], batch));
        }
    }
    charusters
}

} // verus!
