use charuster::character::CharacterBuilder;
use charuster::character::CharacterFeature;
use charuster::character::Charuster;
use charuster::character::Level;
use charuster::config::CharacterConfig;
use charuster::config::Config;
use charuster::config::ExecutionConf;
use charuster::config::Feature;
use charuster::config::TermSources;
use charuster::config::ValuesConfig;
use charuster::generator::FeatureGenerator;
use charuster::generator::ScalarFeature;
use charuster::pipeline::apply_feature;
use charuster::pipeline::create_generators;
use charuster::pipeline::generate_charusters;
use charuster::pipeline::Generator;
use charuster::two_levels::Taxonomy;
use chrono::DateTime;
use chrono::Datelike;

const ALL_FEATURES: [Feature; 13] = [
    Feature::Name,
    Feature::Surname,
    Feature::Nickname,
    Feature::Birthdate,
    Feature::Birthplace,
    Feature::Description,
    Feature::Image,
    Feature::Collection,
    Feature::Profession,
    Feature::Hobbies,
    Feature::Props,
    Feature::Levels,
    Feature::Stats,
];

fn words(list: &[&str]) -> Vec<String> {
    list.iter().map(|w| w.to_string()).collect()
}

fn nothing_enabled(charusters_nums: u32) -> Config {
    Config {
        execution_conf: ExecutionConf {
            charusters_nums,
            export_to_json: false,
            export_to_json_file: String::new(),
        },
        char_conf: CharacterConfig {
            gen_name: false,
            gen_surname: false,
            gen_nickname: false,
            gen_birthdate: false,
            gen_description: false,
            gen_image: false,
            gen_collection: false,
            gen_profession: false,
            gen_hobbies: false,
            gen_props: false,
            gen_levels: false,
            gen_stats: false,
        },
        values_conf: ValuesConfig {
            collection_name: String::new(),
            names_file: String::new(),
            surnames_file: String::new(),
            nicknames_file: String::new(),
            birthplaces_file: String::new(),
            hobbies_file: String::new(),
            professions_file: String::new(),
            props_file: String::new(),
            stats_file: String::new(),
            levels_file: String::new(),
            images_folder: String::new(),
            description_files: String::new(),
            birthdate_min_year: 1920,
            birthdate_max_year: 2010,
        },
    }
}

fn everything_enabled(charusters_nums: u32) -> Config {
    let mut config = nothing_enabled(charusters_nums);
    config.char_conf = CharacterConfig {
        gen_name: true,
        gen_surname: true,
        gen_nickname: true,
        gen_birthdate: true,
        gen_description: true,
        gen_image: true,
        gen_collection: true,
        gen_profession: true,
        gen_hobbies: true,
        gen_props: true,
        gen_levels: true,
        gen_stats: true,
    };
    config.values_conf.collection_name = String::from("Junkie Zombies");
    config.values_conf.names_file = String::from("./names");
    config.values_conf.surnames_file = String::from("./surnames");
    config.values_conf.nicknames_file = String::from("./adjectives");
    config.values_conf.birthplaces_file = String::from("./birthplaces");
    config.values_conf.hobbies_file = String::from("./hobbies");
    config.values_conf.professions_file = String::from("./professions");
    config.values_conf.props_file = String::from("./properties");
    config.values_conf.stats_file = String::from("./stats");
    config.values_conf.levels_file = String::from("./levels");
    config.values_conf.images_folder = String::from("./images/");
    config.values_conf.description_files = String::from("./descriptions");
    config
}

fn full_sources() -> TermSources {
    let mut sources = TermSources::new();
    sources.names = words(&["Alice", "Bob", "Cara"]);
    sources.surnames = words(&["Stone", "Rivers"]);
    sources.nicknames = words(&["Red", "Quick", "Tall", "Sly"]);
    sources.birthplaces = words(&["Oslo", "Rome", "Lima", "Cairo", "Hanoi"]);
    sources.descriptions = words(&["first", "second", "third", "fourth", "fifth", "sixth"]);
    sources.images = words(&["image_1.jpg", "image_2.png", "image_1.jpeg"]);
    sources.professions = words(&["cook", "smith"]);
    sources.hobbies = words(&["chess", "harp", "fencing", "botany"]);
    sources.props = vec![
        Taxonomy { kind: String::from("hat"), terms: words(&["bonnet", "fez"]) },
        Taxonomy { kind: String::from("pet"), terms: words(&["owl", "cat"]) },
    ];
    sources.levels = words(&["logic", "magic", "music"]);
    sources.stats = words(&["might", "wit", "charm", "luck"]);
    sources
}

fn assert_lists_blank(record: &Charuster) {
    assert!(record.hobbies().is_empty());
    assert!(record.props().is_empty());
    assert!(record.levels().is_empty());
    assert!(record.stats().is_empty());
}

#[test]
fn generate_churusters() {
    let config = everything_enabled(5);
    let charusters = generate_charusters(&config, full_sources());
    assert_eq!(charusters.len(), 5);
}

#[test]
fn only_name_and_collection_enabled() {
    let mut config = nothing_enabled(2);
    config.char_conf.gen_name = true;
    config.char_conf.gen_collection = true;
    config.values_conf.names_file = String::from("./names");
    config.values_conf.collection_name = String::from("Zombies");
    let mut sources = TermSources::new();
    sources.names = words(&["Alice", "Bob", "Cara"]);
    let charusters = generate_charusters(&config, sources);
    assert_eq!(charusters.len(), 2);
    for record in &charusters {
        assert_eq!(record.collection(), "Zombies");
        assert!(["Alice", "Bob", "Cara"].contains(&record.name().as_str()));
        assert_eq!(record.surname(), "");
        assert_eq!(record.nickname(), "");
        assert_eq!(record.birthdate(), "");
        assert_eq!(record.birthplace(), "");
        assert_eq!(record.description(), "");
        assert_eq!(record.image(), "");
        assert_eq!(record.profession(), "");
        assert_lists_blank(record);
    }
}

#[test]
fn nothing_enabled_gives_blank_records() {
    let config = nothing_enabled(3);
    assert!(ALL_FEATURES.iter().all(|f| !config.wants(*f)));
    assert!(create_generators(&config, full_sources()).is_empty());
    let charusters = generate_charusters(&config, full_sources());
    assert_eq!(charusters.len(), 3);
    for record in &charusters {
        assert_eq!(record.name(), "");
        assert_eq!(record.collection(), "");
        assert_eq!(record.birthdate(), "");
        assert_lists_blank(record);
    }
}

#[test]
fn no_characters_asked_gives_an_empty_batch() {
    let config = everything_enabled(0);
    assert!(generate_charusters(&config, full_sources()).is_empty());
}

#[test]
fn a_flag_without_a_named_source_is_not_enough() {
    let mut config = everything_enabled(1);
    assert!(ALL_FEATURES.iter().all(|f| config.wants(*f)));
    config.values_conf.names_file = String::new();
    config.values_conf.birthplaces_file = String::new();
    config.values_conf.collection_name = String::new();
    config.values_conf.props_file = String::new();
    assert!(!config.wants(Feature::Name));
    assert!(!config.wants(Feature::Birthplace));
    assert!(!config.wants(Feature::Collection));
    assert!(!config.wants(Feature::Props));
    assert!(config.wants(Feature::Birthdate));
    assert!(config.wants(Feature::Surname));
    let charusters = generate_charusters(&config, full_sources());
    assert_eq!(charusters[0].name(), "");
    assert_eq!(charusters[0].birthplace(), "");
    assert_eq!(charusters[0].collection(), "");
    assert!(charusters[0].props().is_empty());
    assert_ne!(charusters[0].surname(), "");
    assert_ne!(charusters[0].birthdate(), "");
}

#[test]
fn the_place_of_birth_goes_by_the_flag_of_the_date_of_birth() {
    let mut config = everything_enabled(1);
    config.char_conf.gen_birthdate = false;
    assert!(!config.wants(Feature::Birthdate));
    assert!(!config.wants(Feature::Birthplace));
    let charusters = generate_charusters(&config, full_sources());
    assert_eq!(charusters[0].birthdate(), "");
    assert_eq!(charusters[0].birthplace(), "");
}

#[test]
fn the_pipeline_holds_the_enabled_generators_in_feature_order() {
    let generators = create_generators(&everything_enabled(1), full_sources());
    assert_eq!(generators.len(), 13);
    assert!(matches!(&generators[0], Generator::Choose(g) if g.tag == ScalarFeature::Name));
    assert!(matches!(&generators[1], Generator::Choose(g) if g.tag == ScalarFeature::Surname));
    assert!(matches!(&generators[2], Generator::ChooseAndRemove(g) if g.tag == ScalarFeature::Nickname));
    assert!(matches!(&generators[3], Generator::Date(g)
        if g.tag == ScalarFeature::Birthdate && g.birthdate_min_year == 1920 && g.birthdate_max_year == 2010));
    assert!(matches!(&generators[4], Generator::ChooseAndRemove(g) if g.tag == ScalarFeature::Birthplace));
    assert!(matches!(&generators[5], Generator::ChooseAndRemove(g) if g.tag == ScalarFeature::Description));
    assert!(matches!(&generators[6], Generator::ChooseAndRemove(g)
        if g.tag == ScalarFeature::Image && g.dict.len() == 3));
    assert!(matches!(&generators[7], Generator::Choose(g)
        if g.tag == ScalarFeature::Collection && g.dict.len() == 1 && g.dict.term_at(0) == "Junkie Zombies"
            && g.dict.name() == "collection"));
    assert!(matches!(&generators[8], Generator::Choose(g) if g.tag == ScalarFeature::Profession));
    assert!(matches!(&generators[9], Generator::ChooseVec(g) if g.vec_size == 3 && g.dict.len() == 4));
    assert!(matches!(&generators[10], Generator::Props(g)
        if g.vec_size == 3 && g.dict.len() == 2 && g.dict.name() == "./properties"));
    assert!(matches!(&generators[11], Generator::Levels(g) if g.vec_size == 3 && g.dict.len() == 3));
    assert!(matches!(&generators[12], Generator::Stats(g) if g.vec_size == 3 && g.dict.len() == 4));

    let mut config = nothing_enabled(1);
    config.char_conf.gen_stats = true;
    config.char_conf.gen_surname = true;
    config.values_conf.stats_file = String::from("./stats");
    config.values_conf.surnames_file = String::from("./surnames");
    let generators = create_generators(&config, full_sources());
    assert_eq!(generators.len(), 2);
    assert!(matches!(&generators[0], Generator::Choose(g)
        if g.tag == ScalarFeature::Surname && g.dict.name() == "./surnames" && g.dict.len() == 2));
    assert!(matches!(&generators[1], Generator::Stats(g) if g.dict.name() == "./stats"));
}

#[test]
fn a_full_batch_fills_every_field_from_its_source() {
    let config = everything_enabled(3);
    let sources = full_sources();
    for _ in 0..20 {
        let charusters = generate_charusters(&config, full_sources());
        assert_eq!(charusters.len(), 3);
        for record in &charusters {
            assert!(sources.names.contains(record.name()));
            assert!(sources.surnames.contains(record.surname()));
            assert!(sources.nicknames.contains(record.nickname()));
            assert!(sources.birthplaces.contains(record.birthplace()));
            assert!(sources.descriptions.contains(record.description()));
            assert!(sources.images.contains(record.image()));
            assert_eq!(record.collection(), "Junkie Zombies");
            assert!(sources.professions.contains(record.profession()));
            let seconds: i64 = record.birthdate().parse().unwrap();
            let year = DateTime::from_timestamp(seconds, 0).unwrap().year();
            assert!(1920 <= year && year < 2010);
            assert_eq!(record.hobbies().len(), 3);
            assert!(record.hobbies().iter().all(|h| sources.hobbies.contains(h)));
            assert_eq!(record.props().len(), 3);
            for (i, prop) in record.props().iter().enumerate() {
                let taxonomy = sources.props.iter().find(|t| t.kind == prop.prop_type).unwrap();
                assert!(taxonomy.terms.contains(&prop.name));
                for other in &record.props()[..i] {
                    assert!(other.prop_type != prop.prop_type || other.name != prop.name);
                }
            }
            assert_eq!(record.levels().len(), 3);
            assert_eq!(record.stats().len(), 3);
            for (i, stat) in record.stats().iter().enumerate() {
                assert!(sources.stats.contains(&stat.name));
                assert!(1 <= stat.value && stat.value <= 100);
                assert_eq!(stat.max_value, 100);
                for other in &record.stats()[..i] {
                    assert_ne!(other.name, stat.name);
                }
            }
            for (i, level) in record.levels().iter().enumerate() {
                assert!(sources.levels.contains(&level.name));
                assert!(1 <= level.value && level.value <= 100);
                assert_eq!(level.max_value, 100);
                for other in &record.levels()[..i] {
                    assert_ne!(other.name, level.name);
                }
            }
        }
        for (i, record) in charusters.iter().enumerate() {
            for other in &charusters[..i] {
                assert_ne!(other.nickname(), record.nickname());
                assert_ne!(other.birthplace(), record.birthplace());
                assert_ne!(other.description(), record.description());
                assert_ne!(other.image(), record.image());
            }
        }
    }
}

#[test]
fn an_exhausted_source_leaves_the_field_unset() {
    let mut config = nothing_enabled(5);
    config.char_conf.gen_nickname = true;
    config.char_conf.gen_name = true;
    config.char_conf.gen_stats = true;
    config.char_conf.gen_hobbies = true;
    config.char_conf.gen_birthdate = true;
    config.values_conf.nicknames_file = String::from("./adjectives");
    config.values_conf.names_file = String::from("./names");
    config.values_conf.stats_file = String::from("./stats");
    config.values_conf.hobbies_file = String::from("./hobbies");
    config.values_conf.birthdate_min_year = 2000;
    config.values_conf.birthdate_max_year = 1999;
    let mut sources = TermSources::new();
    sources.nicknames = words(&["Red", "Quick", "Tall"]);
    sources.stats = words(&["might", "wit"]);
    let charusters = generate_charusters(&config, sources);
    assert_eq!(charusters.len(), 5);
    let mut given: Vec<&str> = charusters[..3].iter().map(|c| c.nickname().as_str()).collect();
    given.sort();
    assert_eq!(given, vec!["Quick", "Red", "Tall"]);
    assert_eq!(charusters[3].nickname(), "");
    assert_eq!(charusters[4].nickname(), "");
    for record in &charusters {
        assert_eq!(record.name(), "");
        assert_eq!(record.birthdate(), "");
        assert_lists_blank(record);
    }
}

#[test]
fn the_same_stat_may_come_for_different_characters() {
    let mut config = nothing_enabled(4);
    config.char_conf.gen_stats = true;
    config.values_conf.stats_file = String::from("./stats");
    let mut sources = TermSources::new();
    sources.stats = words(&["might", "wit", "charm"]);
    let charusters = generate_charusters(&config, sources);
    for record in &charusters {
        let mut names: Vec<&str> = record.stats().iter().map(|s| s.name.as_str()).collect();
        names.sort();
        assert_eq!(names, vec!["charm", "might", "wit"]);
    }
}

#[test]
fn a_feature_goes_to_the_field_it_is_tagged_for() {
    let mut builder = CharacterBuilder::new();
    apply_feature(&mut builder, CharacterFeature::NAME(String::from("n")));
    apply_feature(&mut builder, CharacterFeature::SURNAME(String::from("s")));
    apply_feature(&mut builder, CharacterFeature::NICKNAME(String::from("k")));
    apply_feature(&mut builder, CharacterFeature::BIRTHDATE(String::from("b")));
    apply_feature(&mut builder, CharacterFeature::BIRTHPLACE(String::from("p")));
    apply_feature(&mut builder, CharacterFeature::DESCRIPTION(String::from("d")));
    apply_feature(&mut builder, CharacterFeature::IMAGE(String::from("i")));
    apply_feature(&mut builder, CharacterFeature::COLLECTION(String::from("c")));
    apply_feature(&mut builder, CharacterFeature::PROFESSION(String::from("f")));
    apply_feature(&mut builder, CharacterFeature::HOBBIES(words(&["h"])));
    apply_feature(&mut builder, CharacterFeature::LEVELS(vec![Level::with_value(String::from("l"), 5)]));
    let record = builder.build();
    assert_eq!(record.name(), "n");
    assert_eq!(record.surname(), "s");
    assert_eq!(record.nickname(), "k");
    assert_eq!(record.birthdate(), "b");
    assert_eq!(record.birthplace(), "p");
    assert_eq!(record.description(), "d");
    assert_eq!(record.image(), "i");
    assert_eq!(record.collection(), "c");
    assert_eq!(record.profession(), "f");
    assert_eq!(record.hobbies(), &words(&["h"]));
    assert_eq!(record.levels()[0].name, "l");
    assert!(record.props().is_empty());
    assert!(record.stats().is_empty());
}

#[test]
fn any_generator_of_the_pipeline_runs_as_its_own_kind() {
    let mut generators = create_generators(&everything_enabled(1), full_sources());
    assert!(matches!(generators[0].generate(), Some(CharacterFeature::NAME(_))));
    assert!(matches!(generators[2].generate(), Some(CharacterFeature::NICKNAME(_))));
    assert!(matches!(&generators[2], Generator::ChooseAndRemove(g) if g.dict.len() == 3));
    assert!(matches!(generators[3].generate(), Some(CharacterFeature::BIRTHDATE(_))));
    assert!(matches!(generators[7].generate(), Some(CharacterFeature::COLLECTION(c)) if c == "Junkie Zombies"));
    assert!(matches!(generators[9].generate(), Some(CharacterFeature::HOBBIES(h)) if h.len() == 3));
    assert!(matches!(generators[10].generate(), Some(CharacterFeature::PROPS(p)) if p.len() == 3));
    assert!(matches!(generators[11].generate(), Some(CharacterFeature::LEVELS(l)) if l.len() == 3));
    assert!(matches!(generators[12].generate(), Some(CharacterFeature::STATS(s)) if s.len() == 3));
}

fn record_to_json(record: &Charuster) -> serde_json::Value {
    let text = |s: &String| serde_json::Value::String(s.clone());
    let score = |name: &String, value: i32, max_value: i32| {
        let mut object = serde_json::Map::new();
        object.insert(String::from("name"), text(name));
        object.insert(String::from("value"), serde_json::Value::from(value));
        object.insert(String::from("max_value"), serde_json::Value::from(max_value));
        serde_json::Value::Object(object)
    };
    let mut object = serde_json::Map::new();
    object.insert(String::from("name"), text(record.name()));
    object.insert(String::from("surname"), text(record.surname()));
    object.insert(String::from("nickname"), text(record.nickname()));
    object.insert(String::from("birthdate"), text(record.birthdate()));
    object.insert(String::from("birthplace"), text(record.birthplace()));
    object.insert(String::from("description"), text(record.description()));
    object.insert(
        String::from("hobbies"),
        serde_json::Value::Array(record.hobbies().iter().map(text).collect()),
    );
    object.insert(String::from("image"), text(record.image()));
    object.insert(String::from("collection"), text(record.collection()));
    object.insert(String::from("profession"), text(record.profession()));
    object.insert(
        String::from("props"),
        serde_json::Value::Array(
            record
                .props()
                .iter()
                .map(|p| {
                    let mut prop = serde_json::Map::new();
                    prop.insert(String::from("prop_type"), text(&p.prop_type));
                    prop.insert(String::from("name"), text(&p.name));
                    serde_json::Value::Object(prop)
                })
                .collect(),
        ),
    );
    object.insert(
        String::from("levels"),
        serde_json::Value::Array(
            record.levels().iter().map(|l| score(&l.name, l.value, l.max_value)).collect(),
        ),
    );
    object.insert(
        String::from("stats"),
        serde_json::Value::Array(
            record.stats().iter().map(|s| score(&s.name, s.value, s.max_value)).collect(),
        ),
    );
    serde_json::Value::Object(object)
}

#[test]
fn a_batch_survives_being_written_and_read_back() {
    let charusters = generate_charusters(&everything_enabled(3), full_sources());
    let batch = serde_json::Value::Array(charusters.iter().map(record_to_json).collect());
    let written = serde_json::to_string(&batch).unwrap();
    let read: serde_json::Value = serde_json::from_str(&written).unwrap();
    assert_eq!(read, batch);
    let records = read.as_array().unwrap();
    assert_eq!(records.len(), 3);
    for (record, parsed) in charusters.iter().zip(records) {
        assert_eq!(parsed["name"].as_str().unwrap(), record.name());
        assert_eq!(parsed["birthdate"].as_str().unwrap(), record.birthdate());
        assert_eq!(parsed["hobbies"].as_array().unwrap().len(), 3);
        assert_eq!(parsed["props"][0]["prop_type"].as_str().unwrap(), record.props()[0].prop_type);
        assert_eq!(parsed["stats"][2]["value"].as_i64().unwrap(), record.stats()[2].value as i64);
        assert_eq!(parsed["levels"][1]["max_value"].as_i64().unwrap(), 100);
    }
}
