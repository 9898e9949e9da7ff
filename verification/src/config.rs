//! The configuration values that the pipeline is assembled from, and the
//! term lists that its dictionaries are filled with.

use crate::two_levels::Taxonomy;
use vstd::prelude::*;

verus! {

/// The whole configuration.
pub struct Config {
    pub execution_conf: ExecutionConf,
    pub char_conf: CharacterConfig,
    pub values_conf: ValuesConfig,
}

/// How much to generate and where the batch goes.
pub struct ExecutionConf {
    pub charusters_nums: u32,
    pub export_to_json: bool,
    pub export_to_json_file: String,
}

/// Which features are switched on.
pub struct CharacterConfig {
    pub gen_name: bool,
    pub gen_surname: bool,
    pub gen_nickname: bool,
    pub gen_birthdate: bool,
    pub gen_description: bool,
    pub gen_image: bool,
    pub gen_collection: bool,
    pub gen_profession: bool,
    pub gen_hobbies: bool,
    pub gen_props: bool,
    pub gen_levels: bool,
    pub gen_stats: bool,
}

/// Where the terms of each feature come from, and the bounds of the date of
/// birth.
pub struct ValuesConfig {
    pub collection_name: String,
    pub names_file: String,
    pub surnames_file: String,
    pub nicknames_file: String,
    pub birthplaces_file: String,
    pub hobbies_file: String,
    pub professions_file: String,
    pub props_file: String,
    pub stats_file: String,
    pub levels_file: String,
    pub images_folder: String,
    pub description_files: String,
    pub birthdate_min_year: u16,
    pub birthdate_max_year: u16,
}

/// The terms read from each configured source. A source that was not read
/// is an empty list. The images are the names of all files of the images
/// folder; the pipeline picks the image files among them.
pub struct TermSources {
    pub names: Vec<String>,
    pub surnames: Vec<String>,
    pub nicknames: Vec<String>,
    pub birthplaces: Vec<String>,
    pub descriptions: Vec<String>,
    pub images: Vec<String>,
    pub professions: Vec<String>,
    pub hobbies: Vec<String>,
    pub props: Vec<Taxonomy>,
    pub levels: Vec<String>,
    pub stats: Vec<String>,
}

/// The features of a character, in the order in which the pipeline holds
/// their generators.
#[derive(Clone, Copy, Debug, PartialEq, Eq, Structural)]
pub enum Feature {
    Name,
    Surname,
    Nickname,
    Birthdate,
    Birthplace,
    Description,
    Image,
    Collection,
    Profession,
    Hobbies,
    Props,
    Levels,
    Stats,
}

/// The number of features.
pub const FEATURE_COUNT: usize = 13;

/// The features in pipeline order.
pub open spec fn feature_order() -> Seq<Feature> {
    seq![
        Feature::Name,
        Feature::Surname,
        Feature::Nickname,
        Feature::Birthdate,
        Feature::Birthplace,
        Feature::Description,
        Feature::Image,
        Feature::Collection,
        Feature::Profession,
        Feature::Hobbies,
        Feature::Props,
        Feature::Levels,
        Feature::Stats,
    ]
}

/// Whether the configuration asks for a feature: its flag is set and, where
/// it draws on a source, the source is named. The place of birth goes by the
/// flag of the date of birth.
pub open spec fn wants(config: &Config, feature: Feature) -> bool {
    match feature {
        Feature::Name => config.char_conf.gen_name && config.values_conf.names_file@.len() > 0,
        Feature::Surname => config.char_conf.gen_surname && config.values_conf.surnames_file@.len() > 0,
        Feature::Nickname => config.char_conf.gen_nickname && config.values_conf.nicknames_file@.len() > 0,
        Feature::Birthdate => config.char_conf.gen_birthdate,
        Feature::Birthplace => config.char_conf.gen_birthdate && config.values_conf.birthplaces_file@.len() > 0,
        Feature::Description => config.char_conf.gen_description && config.values_conf.description_files@.len() > 0,
        Feature::Image => config.char_conf.gen_image && config.values_conf.images_folder@.len() > 0,
        Feature::Collection => config.char_conf.gen_collection && config.values_conf.collection_name@.len() > 0,
        Feature::Profession => config.char_conf.gen_profession && config.values_conf.professions_file@.len() > 0,
        Feature::Hobbies => config.char_conf.gen_hobbies && config.values_conf.hobbies_file@.len() > 0,
        Feature::Props => config.char_conf.gen_props && config.values_conf.props_file@.len() > 0,
        Feature::Levels => config.char_conf.gen_levels && config.values_conf.levels_file@.len() > 0,
        Feature::Stats => config.char_conf.gen_stats && config.values_conf.stats_file@.len() > 0,
    }
}

/// The features that the configuration asks for among `features`, in the
/// order of `features`.
pub open spec fn wanted_among(config: &Config, features: Seq<Feature>) -> Seq<Feature>
    decreases features.len(),
{
    if features.len() == 0 {
        Seq::empty()
    } else if wants(config, features.last()) {
        wanted_among(config, features.drop_last()).push(features.last())
    } else {
        wanted_among(config, features.drop_last())
    }
}

impl Config {
    /// Whether the configuration asks for a feature.
    pub fn wants(&self, feature: Feature) -> (wanted: bool)
        ensures
            wanted == wants(self, feature),
    {
        match feature {
            Feature::Name => self.char_conf.gen_name && !self.values_conf.names_file.as_str().is_empty(),
            Feature::Surname => self.char_conf.gen_surname && !self.values_conf.surnames_file.as_str().is_empty(),
            Feature::Nickname => self.char_conf.gen_nickname && !self.values_conf.nicknames_file.as_str().is_empty(),
            Feature::Birthdate => self.char_conf.gen_birthdate,
            Feature::Birthplace => self.char_conf.gen_birthdate && !self.values_conf.birthplaces_file.as_str().is_empty(),
            Feature::Description => self.char_conf.gen_description && !self.values_conf.description_files.as_str().is_empty(),
            Feature::Image => self.char_conf.gen_image && !self.values_conf.images_folder.as_str().is_empty(),
            Feature::Collection => self.char_conf.gen_collection && !self.values_conf.collection_name.as_str().is_empty(),
            Feature::Profession => self.char_conf.gen_profession && !self.values_conf.professions_file.as_str().is_empty(),
            Feature::Hobbies => self.char_conf.gen_hobbies && !self.values_conf.hobbies_file.as_str().is_empty(),
            Feature::Props => self.char_conf.gen_props && !self.values_conf.props_file.as_str().is_empty(),
            Feature::Levels => self.char_conf.gen_levels && !self.values_conf.levels_file.as_str().is_empty(),
            Feature::Stats => self.char_conf.gen_stats && !self.values_conf.stats_file.as_str().is_empty(),
        }
    }
}

impl TermSources {
    /// Sources from which nothing was read.
    pub fn new() -> (sources: Self)
        ensures
            sources.names@.len() == 0,
            sources.surnames@.len() == 0,
            sources.nicknames@.len() == 0,
            sources.birthplaces@.len() == 0,
            sources.descriptions@.len() == 0,
            sources.images@.len() == 0,
            sources.professions@.len() == 0,
            sources.hobbies@.len() == 0,
            sources.props@.len() == 0,
            sources.levels@.len() == 0,
            sources.stats@.len() == 0,
    {
        TermSources {
            names: Vec::new(),
            surnames: Vec::new(),
            nicknames: Vec::new(),
            birthplaces: Vec::new(),
            descriptions: Vec::new(),
            images: Vec::new(),
            professions: Vec::new(),
            hobbies: Vec::new(),
            props: Vec::new(),
            levels: Vec::new(),
            stats: Vec::new(),
        }
    }
}

/// The place of a feature in the pipeline order, counted from 0.
pub open spec fn position(feature: Feature) -> int {
    match feature {
        Feature::Name => 0,
        Feature::Surname => 1,
        Feature::Nickname => 2,
        Feature::Birthdate => 3,
        Feature::Birthplace => 4,
        Feature::Description => 5,
        Feature::Image => 6,
        Feature::Collection => 7,
        Feature::Profession => 8,
        Feature::Hobbies => 9,
        Feature::Props => 10,
        Feature::Levels => 11,
        Feature::Stats => 12,
    }
}

/// Each feature stands at its place in the pipeline order.
pub proof fn lemma_feature_order()
    ensures
        feature_order().len() == FEATURE_COUNT,
        forall|feature: Feature| #[trigger] feature_order()[position(feature)] == feature,
        forall|i: int| 0 <= i < FEATURE_COUNT ==> position(#[trigger] feature_order()[i]) == i,
{
    assert forall|i: int| 0 <= i < FEATURE_COUNT implies position(#[trigger] feature_order()[i])
        == i by {
        assert(feature_order()[0] == Feature::Name);
        assert(feature_order()[1] == Feature::Surname);
        assert(feature_order()[2] == Feature::Nickname);
        assert(feature_order()[3] == Feature::Birthdate);
        assert(feature_order()[4] == Feature::Birthplace);
        assert(feature_order()[5] == Feature::Description);
        assert(feature_order()[6] == Feature::Image);
        assert(feature_order()[7] == Feature::Collection);
        assert(feature_order()[8] == Feature::Profession);
        assert(feature_order()[9] == Feature::Hobbies);
        assert(feature_order()[10] == Feature::Props);
        assert(feature_order()[11] == Feature::Levels);
        assert(feature_order()[12] == Feature::Stats);
    }
}

/// The features asked for among the first `upto` of the pipeline order: each
/// is asked for, they stand in pipeline order without repeats, and none that
/// is asked for is missing.
pub proof fn lemma_wanted_among(config: &Config, upto: int)
    requires
        0 <= upto <= FEATURE_COUNT,
    ensures
        forall|k: int|
            0 <= k < wanted_among(config, feature_order().take(upto)).len() ==> wants(
                config,
                #[trigger] wanted_among(config, feature_order().take(upto))[k],
            ) && position(wanted_among(config, feature_order().take(upto))[k]) < upto,
        forall|a: int, b: int|
            0 <= a < b < wanted_among(config, feature_order().take(upto)).len() ==> position(
                #[trigger] wanted_among(config, feature_order().take(upto))[a],
            ) < position(#[trigger] wanted_among(config, feature_order().take(upto))[b]),
        forall|feature: Feature|
            wants(config, feature) && position(feature) < upto ==> #[trigger] wanted_among(
                config,
                feature_order().take(upto),
            ).contains(feature),
    decreases upto,
{
    lemma_feature_order();
    let now = wanted_among(config, feature_order().take(upto));
    if upto > 0 {
        lemma_wanted_among(config, upto - 1);
        let earlier = wanted_among(config, feature_order().take(upto - 1));
        let last = feature_order()[upto - 1];
        assert(feature_order().take(upto).drop_last() =~= feature_order().take(upto - 1));
        assert(feature_order().take(upto).last() == last);
        assert(position(last) == upto - 1);
        assert forall|feature: Feature|
            wants(config, feature) && position(feature) < upto implies now.contains(feature) by {
            if position(feature) == upto - 1 {
                assert(feature == last);
                assert(now[now.len() - 1] == feature);
            } else {
                assert(earlier.contains(feature));
                let k = choose|k: int| 0 <= k < earlier.len() && earlier[k] == feature;
                assert(now[k] == feature);
            }
        }
    } else {
        assert(feature_order().take(0) =~= Seq::empty());
    }
}

} // verus!
