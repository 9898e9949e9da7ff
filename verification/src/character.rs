//! The character record, its builder, the tagged feature values that fill
//! it, and the three composite sub-attributes: properties, levels and stats.

use crate::chance::random_between;
use crate::dictionary::Dictionary;
use crate::dictionary::SimpleDictionary;
use crate::term::split_at_delimiter;
use crate::term::split_term;
use crate::two_levels::TwoLevelsDictionary;
use vstd::prelude::*;

verus! {

/// The upper end of every level and stat scale.
pub const MAX_QUIRK_VALUE: i32 = 100;

/// The lower end of every level and stat scale.
pub const MIN_QUIRK_VALUE: i32 = 1;

/// The character that parts a kind from its sub-term in a two-level term.
pub open spec fn delimiter() -> char {
    '+'
}

/// A property as plain values.
pub struct PropertyView {
    pub prop_type: Seq<char>,
    pub name: Seq<char>,
}

/// A level or a stat as plain values.
pub struct ScoreView {
    pub name: Seq<char>,
    pub value: int,
    pub max_value: int,
}

/// A typed property of a character: a category and the value within it.
#[derive(Debug)]
pub struct Property {
    pub prop_type: String,
    pub name: String,
}

/// A named level on a bounded scale.
#[derive(Debug)]
pub struct Level {
    pub name: String,
    pub value: i32,
    pub max_value: i32,
}

/// A named stat on a bounded scale.
#[derive(Debug)]
pub struct Stat {
    pub name: String,
    pub value: i32,
    pub max_value: i32,
}

impl View for Property {
    type V = PropertyView;

    open spec fn view(&self) -> PropertyView {
        PropertyView { prop_type: self.prop_type@, name: self.name@ }
    }
}

impl View for Level {
    type V = ScoreView;

    open spec fn view(&self) -> ScoreView {
        ScoreView { name: self.name@, value: self.value as int, max_value: self.max_value as int }
    }
}

impl View for Stat {
    type V = ScoreView;

    open spec fn view(&self) -> ScoreView {
        ScoreView { name: self.name@, value: self.value as int, max_value: self.max_value as int }
    }
}

/// The views of a list of strings.
pub open spec fn texts(items: Seq<String>) -> Seq<Seq<char>> {
    items.map_values(|s: String| s@)
}

/// The views of a list of properties.
pub open spec fn property_views(items: Seq<Property>) -> Seq<PropertyView> {
    items.map_values(|p: Property| p@)
}

/// The views of a list of levels.
pub open spec fn level_views(items: Seq<Level>) -> Seq<ScoreView> {
    items.map_values(|l: Level| l@)
}

/// The views of a list of stats.
pub open spec fn stat_views(items: Seq<Stat>) -> Seq<ScoreView> {
    items.map_values(|s: Stat| s@)
}

/// Whether a score is one that current policy hands out for `term`: the term
/// as its name, a value on the scale, and the scale's fixed upper end.
pub open spec fn score_of_term(score: ScoreView, term: Seq<char>) -> bool {
    &&& score.name == term
    &&& MIN_QUIRK_VALUE <= score.value <= MAX_QUIRK_VALUE
    &&& score.max_value == MAX_QUIRK_VALUE
}

/// The shapes a feature value can have.
pub enum CharacterPropTypes {
    String,
    VecString,
    VecProps,
    VecLevels,
    VecStats,
}

/// One generated attribute value, tagged with the record field it is for.
pub enum CharacterFeature {
    NAME(String),
    SURNAME(String),
    NICKNAME(String),
    BIRTHDATE(String),
    BIRTHPLACE(String),
    DESCRIPTION(String),
    IMAGE(String),
    COLLECTION(String),
    PROFESSION(String),
    HOBBIES(Vec<String>),
    PROPS(Vec<Property>),
    LEVELS(Vec<Level>),
    STATS(Vec<Stat>),
}

/// A feature value as plain values.
pub enum FeatureView {
    Name(Seq<char>),
    Surname(Seq<char>),
    Nickname(Seq<char>),
    Birthdate(Seq<char>),
    Birthplace(Seq<char>),
    Description(Seq<char>),
    Image(Seq<char>),
    Collection(Seq<char>),
    Profession(Seq<char>),
    Hobbies(Seq<Seq<char>>),
    Props(Seq<PropertyView>),
    Levels(Seq<ScoreView>),
    Stats(Seq<ScoreView>),
}

impl View for CharacterFeature {
    type V = FeatureView;

    open spec fn view(&self) -> FeatureView {
        match self {
            CharacterFeature::NAME(v) => FeatureView::Name(v@),
            CharacterFeature::SURNAME(v) => FeatureView::Surname(v@),
            CharacterFeature::NICKNAME(v) => FeatureView::Nickname(v@),
            CharacterFeature::BIRTHDATE(v) => FeatureView::Birthdate(v@),
            CharacterFeature::BIRTHPLACE(v) => FeatureView::Birthplace(v@),
            CharacterFeature::DESCRIPTION(v) => FeatureView::Description(v@),
            CharacterFeature::IMAGE(v) => FeatureView::Image(v@),
            CharacterFeature::COLLECTION(v) => FeatureView::Collection(v@),
            CharacterFeature::PROFESSION(v) => FeatureView::Profession(v@),
            CharacterFeature::HOBBIES(v) => FeatureView::Hobbies(texts(v@)),
            CharacterFeature::PROPS(v) => FeatureView::Props(property_views(v@)),
            CharacterFeature::LEVELS(v) => FeatureView::Levels(level_views(v@)),
            CharacterFeature::STATS(v) => FeatureView::Stats(stat_views(v@)),
        }
    }
}

impl CharacterFeature {
    /// The shape of the value this feature carries.
    pub fn prop_type(&self) -> (shape: CharacterPropTypes)
        ensures
            shape is VecString <==> self@ is Hobbies,
            shape is VecProps <==> self@ is Props,
            shape is VecLevels <==> self@ is Levels,
            shape is VecStats <==> self@ is Stats,
    {
        match self {
            CharacterFeature::HOBBIES(_) => CharacterPropTypes::VecString,
            CharacterFeature::PROPS(_) => CharacterPropTypes::VecProps,
            CharacterFeature::LEVELS(_) => CharacterPropTypes::VecLevels,
            CharacterFeature::STATS(_) => CharacterPropTypes::VecStats,
            _ => CharacterPropTypes::String,
        }
    }
}

/// A character record as plain values.
pub struct CharusterView {
    pub name: Seq<char>,
    pub surname: Seq<char>,
    pub nickname: Seq<char>,
    pub birthdate: Seq<char>,
    pub birthplace: Seq<char>,
    pub description: Seq<char>,
    pub hobbies: Seq<Seq<char>>,
    pub image: Seq<char>,
    pub collection: Seq<char>,
    pub profession: Seq<char>,
    pub props: Seq<PropertyView>,
    pub levels: Seq<ScoreView>,
    pub stats: Seq<ScoreView>,
}

/// The record in which nothing has been set: every text and every list empty.
pub open spec fn blank_record() -> CharusterView {
    CharusterView {
        name: Seq::empty(),
        surname: Seq::empty(),
        nickname: Seq::empty(),
        birthdate: Seq::empty(),
        birthplace: Seq::empty(),
        description: Seq::empty(),
        hobbies: Seq::empty(),
        image: Seq::empty(),
        collection: Seq::empty(),
        profession: Seq::empty(),
        props: Seq::empty(),
        levels: Seq::empty(),
        stats: Seq::empty(),
    }
}

/// A generated character. A record is made by a builder and never changes.
#[derive(Debug)]
pub struct Charuster {
    name: String,
    surname: String,
    nickname: String,
    birthdate: String,
    birthplace: String,
    description: String,
    hobbies: Vec<String>,
    image: String,
    collection: String,
    profession: String,
    props: Vec<Property>,
    levels: Vec<Level>,
    stats: Vec<Stat>,
}

impl View for Charuster {
    type V = CharusterView;

    closed spec fn view(&self) -> CharusterView {
        CharusterView {
            name: self.name@,
            surname: self.surname@,
            nickname: self.nickname@,
            birthdate: self.birthdate@,
            birthplace: self.birthplace@,
            description: self.description@,
            hobbies: texts(self.hobbies@),
            image: self.image@,
            collection: self.collection@,
            profession: self.profession@,
            props: property_views(self.props@),
            levels: level_views(self.levels@),
            stats: stat_views(self.stats@),
        }
    }
}

impl Charuster {
    /// A builder in which nothing is set yet.
    pub fn builder() -> (builder: CharacterBuilder)
        ensures
            builder@ == blank_record(),
    {
        CharacterBuilder::new()
    }

    /// The record's field for the given name.
    pub fn name(&self) -> (value: &String)
        ensures
            value@ == self@.name,
    {
        &self.name
    }

    /// The record's field for the family name.
    pub fn surname(&self) -> (value: &String)
        ensures
            value@ == self@.surname,
    {
        &self.surname
    }

    /// The record's field for the nickname.
    pub fn nickname(&self) -> (value: &String)
        ensures
            value@ == self@.nickname,
    {
        &self.nickname
    }

    /// The record's field for the date of birth, in seconds of the Unix epoch written in decimal.
    pub fn birthdate(&self) -> (value: &String)
        ensures
            value@ == self@.birthdate,
    {
        &self.birthdate
    }

    /// The record's field for the place of birth.
    pub fn birthplace(&self) -> (value: &String)
        ensures
            value@ == self@.birthplace,
    {
        &self.birthplace
    }

    /// The record's field for the description.
    pub fn description(&self) -> (value: &String)
        ensures
            value@ == self@.description,
    {
        &self.description
    }

    /// The record's field for the hobbies.
    pub fn hobbies(&self) -> (value: &Vec<String>)
        ensures
            texts(value@) == self@.hobbies,
    {
        &self.hobbies
    }

    /// The record's field for the image file.
    pub fn image(&self) -> (value: &String)
        ensures
            value@ == self@.image,
    {
        &self.image
    }

    /// The record's field for the collection.
    pub fn collection(&self) -> (value: &String)
        ensures
            value@ == self@.collection,
    {
        &self.collection
    }

    /// The record's field for the profession.
    pub fn profession(&self) -> (value: &String)
        ensures
            value@ == self@.profession,
    {
        &self.profession
    }

    /// The record's field for the properties.
    pub fn props(&self) -> (value: &Vec<Property>)
        ensures
            property_views(value@) == self@.props,
    {
        &self.props
    }

    /// The record's field for the levels.
    pub fn levels(&self) -> (value: &Vec<Level>)
        ensures
            level_views(value@) == self@.levels,
    {
        &self.levels
    }

    /// The record's field for the stats.
    pub fn stats(&self) -> (value: &Vec<Stat>)
        ensures
            stat_views(value@) == self@.stats,
    {
        &self.stats
    }
}

/// The accumulator of one character's field values.
pub struct CharacterBuilder {
    name: String,
    surname: String,
    nickname: String,
    birthdate: String,
    birthplace: String,
    description: String,
    hobbies: Vec<String>,
    image: String,
    collection: String,
    profession: String,
    props: Vec<Property>,
    levels: Vec<Level>,
    stats: Vec<Stat>,
}

impl View for CharacterBuilder {
    type V = CharusterView;

    /// The record that `build` would yield.
    closed spec fn view(&self) -> CharusterView {
        CharusterView {
            name: self.name@,
            surname: self.surname@,
            nickname: self.nickname@,
            birthdate: self.birthdate@,
            birthplace: self.birthplace@,
            description: self.description@,
            hobbies: texts(self.hobbies@),
            image: self.image@,
            collection: self.collection@,
            profession: self.profession@,
            props: property_views(self.props@),
            levels: level_views(self.levels@),
            stats: stat_views(self.stats@),
        }
    }
}

impl Default for CharacterBuilder {
    fn default() -> (builder: Self)
        ensures
            builder@ == blank_record(),
    {
        CharacterBuilder::new()
    }
}

impl CharacterBuilder {
    /// A builder in which nothing is set yet.
    pub fn new() -> (builder: Self)
        ensures
            builder@ == blank_record(),
    {
        let builder = CharacterBuilder {
            name: String::new(),
            surname: String::new(),
            nickname: String::new(),
            birthdate: String::new(),
            birthplace: String::new(),
            description: String::new(),
            hobbies: Vec::new(),
            image: String::new(),
            collection: String::new(),
            profession: String::new(),
            props: Vec::new(),
            levels: Vec::new(),
            stats: Vec::new(),
        };
        assert(builder@.hobbies =~= Seq::empty());
        assert(builder@.props =~= Seq::empty());
        assert(builder@.levels =~= Seq::empty());
        assert(builder@.stats =~= Seq::empty());
        builder
    }

    /// Sets the given name and leaves the other fields as they are.
    pub fn name(&mut self, name: String) -> (builder: &Self)
        ensures
            final(self)@ == (CharusterView { name: name@, ..old(self)@ }),
            builder@ == final(self)@,
    {
        self.name = name;
        self
    }

    /// Sets the family name and leaves the other fields as they are.
    pub fn surname(&mut self, surname: String) -> (builder: &Self)
        ensures
            final(self)@ == (CharusterView { surname: surname@, ..old(self)@ }),
            builder@ == final(self)@,
    {
        self.surname = surname;
        self
    }

    /// Sets the nickname and leaves the other fields as they are.
    pub fn nickname(&mut self, nickname: String) -> (builder: &Self)
        ensures
            final(self)@ == (CharusterView { nickname: nickname@, ..old(self)@ }),
            builder@ == final(self)@,
    {
        self.nickname = nickname;
        self
    }

    /// Sets the date of birth, in seconds of the Unix epoch written in decimal and leaves the other fields as they are.
    pub fn birthdate(&mut self, birthdate: String) -> (builder: &Self)
        ensures
            final(self)@ == (CharusterView { birthdate: birthdate@, ..old(self)@ }),
            builder@ == final(self)@,
    {
        self.birthdate = birthdate;
        self
    }

    /// Sets the place of birth and leaves the other fields as they are.
    pub fn birthplace(&mut self, birthplace: String) -> (builder: &Self)
        ensures
            final(self)@ == (CharusterView { birthplace: birthplace@, ..old(self)@ }),
            builder@ == final(self)@,
    {
        self.birthplace = birthplace;
        self
    }

    /// Sets the description and leaves the other fields as they are.
    pub fn description(&mut self, description: String) -> (builder: &Self)
        ensures
            final(self)@ == (CharusterView { description: description@, ..old(self)@ }),
            builder@ == final(self)@,
    {
        self.description = description;
        self
    }

    /// Sets the hobbies and leaves the other fields as they are.
    pub fn hobbies(&mut self, hobbies: Vec<String>) -> (builder: &Self)
        ensures
            final(self)@ == (CharusterView { hobbies: texts(hobbies@), ..old(self)@ }),
            builder@ == final(self)@,
    {
        self.hobbies = hobbies;
        self
    }

    /// Sets the image file and leaves the other fields as they are.
    pub fn image(&mut self, image: String) -> (builder: &Self)
        ensures
            final(self)@ == (CharusterView { image: image@, ..old(self)@ }),
            builder@ == final(self)@,
    {
        self.image = image;
        self
    }

    /// Sets the collection and leaves the other fields as they are.
    pub fn collection(&mut self, collection: String) -> (builder: &Self)
        ensures
            final(self)@ == (CharusterView { collection: collection@, ..old(self)@ }),
            builder@ == final(self)@,
    {
        self.collection = collection;
        self
    }

    /// Sets the profession and leaves the other fields as they are.
    pub fn profession(&mut self, profession: String) -> (builder: &Self)
        ensures
            final(self)@ == (CharusterView { profession: profession@, ..old(self)@ }),
            builder@ == final(self)@,
    {
        self.profession = profession;
        self
    }

    /// Sets the properties and leaves the other fields as they are.
    pub fn props(&mut self, props: Vec<Property>) -> (builder: &Self)
        ensures
            final(self)@ == (CharusterView { props: property_views(props@), ..old(self)@ }),
            builder@ == final(self)@,
    {
        self.props = props;
        self
    }

    /// Sets the levels and leaves the other fields as they are.
    pub fn levels(&mut self, levels: Vec<Level>) -> (builder: &Self)
        ensures
            final(self)@ == (CharusterView { levels: level_views(levels@), ..old(self)@ }),
            builder@ == final(self)@,
    {
        self.levels = levels;
        self
    }

    /// Sets the stats and leaves the other fields as they are.
    pub fn stats(&mut self, stats: Vec<Stat>) -> (builder: &Self)
        ensures
            final(self)@ == (CharusterView { stats: stat_views(stats@), ..old(self)@ }),
            builder@ == final(self)@,
    {
        self.stats = stats;
        self
    }

    /// Freezes the accumulated values into a record.
    pub fn build(self) -> (record: Charuster)
        ensures
            record@ == self@,
    {
        Charuster {
            name: self.name,
            surname: self.surname,
            nickname: self.nickname,
            birthdate: self.birthdate,
            birthplace: self.birthplace,
            description: self.description,
            hobbies: self.hobbies,
            image: self.image,
            collection: self.collection,
            profession: self.profession,
            props: self.props,
            levels: self.levels,
            stats: self.stats,
        }
    }
}

/// A composite sub-attribute that is made from a sampled term.
pub trait Quirk: Sized {
    /// The kind of dictionary whose terms become quirks of this type.
    type Source: Dictionary;

    /// Whether a term can become a quirk of this type.
    spec fn fits(term: Seq<char>) -> bool;

    /// Whether `self` is something that `term` may become.
    spec fn made_from(&self, term: Seq<char>) -> bool;

    /// The feature value that carries a list of quirks of this type.
    spec fn feature_of(quirks: Seq<Self>) -> FeatureView;

    /// Combines a sampled term with whatever else the quirk needs.
    fn from_term(term: String) -> (quirk: Option<Self>)
        ensures
            quirk is Some <==> Self::fits(term@),
            quirk matches Some(q) ==> q.made_from(term@),
    ;

    /// Tags a list of quirks for its record field.
    fn into_feature(quirks: Vec<Self>) -> (feature: CharacterFeature)
        ensures
            feature@ == Self::feature_of(quirks@),
    ;
}

impl Level {
    /// The level `name` at `value` on the scale of current policy.
    pub fn with_value(name: String, value: i32) -> (level: Self)
        ensures
            level@ == (ScoreView { name: name@, value: value as int, max_value: MAX_QUIRK_VALUE as int }),
    {
        Level { name, value, max_value: MAX_QUIRK_VALUE }
    }
}

impl Stat {
    /// The stat `name` at `value` on the scale of current policy.
    pub fn with_value(name: String, value: i32) -> (stat: Self)
        ensures
            stat@ == (ScoreView { name: name@, value: value as int, max_value: MAX_QUIRK_VALUE as int }),
    {
        Stat { name, value, max_value: MAX_QUIRK_VALUE }
    }
}

impl Quirk for Property {
    type Source = TwoLevelsDictionary;

    /// A property needs a term with a delimiter in it.
    open spec fn fits(term: Seq<char>) -> bool {
        split_at_delimiter(term) is Some
    }

    /// The category is what stands before the first delimiter and the name
    /// what stands between the first and the second.
    open spec fn made_from(&self, term: Seq<char>) -> bool {
        split_at_delimiter(term) == Some((self.prop_type@, self.name@))
    }

    open spec fn feature_of(quirks: Seq<Self>) -> FeatureView {
        FeatureView::Props(property_views(quirks))
    }

    fn from_term(term: String) -> (quirk: Option<Self>) {
        match split_term(term.as_str()) {
            Some((prop_type, name)) => Some(Property { prop_type, name }),
            None => None,
        }
    }

    fn into_feature(quirks: Vec<Self>) -> (feature: CharacterFeature) {
        CharacterFeature::PROPS(quirks)
    }
}

impl Quirk for Level {
    type Source = SimpleDictionary;

    open spec fn fits(term: Seq<char>) -> bool {
        true
    }

    open spec fn made_from(&self, term: Seq<char>) -> bool {
        score_of_term(self@, term)
    }

    open spec fn feature_of(quirks: Seq<Self>) -> FeatureView {
        FeatureView::Levels(level_views(quirks))
    }

    fn from_term(term: String) -> (quirk: Option<Self>) {
        Some(Level::with_value(term, random_between(MIN_QUIRK_VALUE, MAX_QUIRK_VALUE)))
    }

    fn into_feature(quirks: Vec<Self>) -> (feature: CharacterFeature) {
        CharacterFeature::LEVELS(quirks)
    }
}

impl Quirk for Stat {
    type Source = SimpleDictionary;

    open spec fn fits(term: Seq<char>) -> bool {
        true
    }

    open spec fn made_from(&self, term: Seq<char>) -> bool {
        score_of_term(self@, term)
    }

    open spec fn feature_of(quirks: Seq<Self>) -> FeatureView {
        FeatureView::Stats(stat_views(quirks))
    }

    fn from_term(term: String) -> (quirk: Option<Self>) {
        Some(Stat::with_value(term, random_between(MIN_QUIRK_VALUE, MAX_QUIRK_VALUE)))
    }

    fn into_feature(quirks: Vec<Self>) -> (feature: CharacterFeature) {
        CharacterFeature::STATS(quirks)
    }
}

} // verus!
