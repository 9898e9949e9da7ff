use charuster::character::CharacterFeature;
use charuster::character::Level;
use charuster::character::Property;
use charuster::character::Stat;
use charuster::dictionary::SimpleDictionary;
use charuster::generator::ChooseAndRemoveGenerator;
use charuster::generator::ChooseGenerator;
use charuster::generator::ChooseVecGenerator;
use charuster::generator::ChooseVecQuirkGenerator;
use charuster::generator::DateGenerator;
use charuster::generator::FeatureGenerator;
use charuster::generator::ScalarFeature;
use charuster::two_levels::Taxonomy;
use charuster::two_levels::TwoLevelsDictionary;
use chrono::DateTime;
use chrono::Datelike;

fn words(list: &[&str]) -> Vec<String> {
    list.iter().map(|w| w.to_string()).collect()
}

fn dictionary(list: &[&str]) -> SimpleDictionary {
    SimpleDictionary::new(String::from("words"), words(list))
}

#[test]
fn each_tag_wraps_for_its_field() {
    let v = || String::from("v");
    assert!(matches!(ScalarFeature::Name.wrap(v()), CharacterFeature::NAME(s) if s == "v"));
    assert!(matches!(ScalarFeature::Surname.wrap(v()), CharacterFeature::SURNAME(s) if s == "v"));
    assert!(matches!(ScalarFeature::Nickname.wrap(v()), CharacterFeature::NICKNAME(s) if s == "v"));
    assert!(matches!(ScalarFeature::Birthdate.wrap(v()), CharacterFeature::BIRTHDATE(s) if s == "v"));
    assert!(matches!(ScalarFeature::Birthplace.wrap(v()), CharacterFeature::BIRTHPLACE(s) if s == "v"));
    assert!(matches!(
        ScalarFeature::Description.wrap(v()),
        CharacterFeature::DESCRIPTION(s) if s == "v"
    ));
    assert!(matches!(ScalarFeature::Image.wrap(v()), CharacterFeature::IMAGE(s) if s == "v"));
    assert!(matches!(ScalarFeature::Collection.wrap(v()), CharacterFeature::COLLECTION(s) if s == "v"));
    assert!(matches!(ScalarFeature::Profession.wrap(v()), CharacterFeature::PROFESSION(s) if s == "v"));
}

#[test]
fn the_date_generator_yields_a_year_in_the_span() {
    let mut generator = DateGenerator::new(1900, 1950, ScalarFeature::Birthdate);
    for _ in 0..1000 {
        match generator.generate() {
            Some(CharacterFeature::BIRTHDATE(text)) => {
                let seconds: i64 = text.parse().unwrap();
                assert_eq!(seconds.to_string(), text);
                let year = DateTime::from_timestamp(seconds, 0).unwrap().year();
                assert!(1900 <= year && year < 1950);
            },
            _ => panic!("a date of birth is due"),
        }
    }
    assert_eq!(generator.birthdate_min_year, 1900);
    assert_eq!(generator.birthdate_max_year, 1950);
}

#[test]
fn the_date_generator_fails_on_a_later_earliest_year() {
    let mut generator = DateGenerator::new(1950, 1900, ScalarFeature::Birthdate);
    assert!(generator.generate().is_none());
}

#[test]
fn the_date_generator_writes_the_timestamp_in_decimal() {
    let mut generator = DateGenerator::new(1900, 1900, ScalarFeature::Birthdate);
    assert!(matches!(
        generator.generate(),
        Some(CharacterFeature::BIRTHDATE(text)) if text == "-2208988800"
    ));
    let mut generator = DateGenerator::new(1970, 1970, ScalarFeature::Birthdate);
    assert!(matches!(generator.generate(), Some(CharacterFeature::BIRTHDATE(text)) if text == "0"));
}

#[test]
fn the_choose_generator_repeats_and_keeps_its_terms() {
    let mut generator = ChooseGenerator::new(dictionary(&["cook", "smith"]), ScalarFeature::Profession);
    let mut seen_cook = false;
    let mut seen_smith = false;
    for _ in 0..200 {
        match generator.generate() {
            Some(CharacterFeature::PROFESSION(term)) => {
                assert!(term == "cook" || term == "smith");
                seen_cook = seen_cook || term == "cook";
                seen_smith = seen_smith || term == "smith";
            },
            _ => panic!("a profession is due"),
        }
        assert_eq!(generator.dict.len(), 2);
    }
    assert!(seen_cook && seen_smith);
}

#[test]
fn the_choose_generator_yields_nothing_without_terms() {
    let mut generator = ChooseGenerator::new(dictionary(&[]), ScalarFeature::Name);
    assert!(generator.generate().is_none());
}

#[test]
fn the_removing_generator_never_repeats_and_runs_out() {
    let all = ["red", "green", "blue", "black"];
    let mut generator = ChooseAndRemoveGenerator::new(dictionary(&all), ScalarFeature::Nickname);
    let mut seen: Vec<String> = Vec::new();
    for left in (0..4).rev() {
        match generator.generate() {
            Some(CharacterFeature::NICKNAME(term)) => {
                assert!(all.contains(&term.as_str()));
                assert!(!seen.contains(&term));
                seen.push(term);
            },
            _ => panic!("a nickname is due"),
        }
        assert_eq!(generator.dict.len(), left);
    }
    assert!(generator.generate().is_none());
    assert!(generator.generate().is_none());
    assert_eq!(generator.dict.name(), "words");
}

#[test]
fn the_list_generator_picks_with_replacement() {
    let mut generator = ChooseVecGenerator::new(dictionary(&["chess"]), 3);
    match generator.generate() {
        Some(CharacterFeature::HOBBIES(list)) => assert_eq!(list, words(&["chess", "chess", "chess"])),
        _ => panic!("hobbies are due"),
    }
    assert_eq!(generator.dict.len(), 1);
    let all = ["chess", "harp", "fencing", "botany"];
    let mut generator = ChooseVecGenerator::new(dictionary(&all), 3);
    for _ in 0..100 {
        match generator.generate() {
            Some(CharacterFeature::HOBBIES(list)) => {
                assert_eq!(list.len(), 3);
                assert!(list.iter().all(|h| all.contains(&h.as_str())));
            },
            _ => panic!("hobbies are due"),
        }
        assert_eq!(generator.dict.len(), 4);
    }
}

#[test]
fn the_list_generator_yields_nothing_without_terms_unless_nothing_is_asked() {
    let mut generator = ChooseVecGenerator::new(dictionary(&[]), 3);
    assert!(generator.generate().is_none());
    let mut generator = ChooseVecGenerator::new(dictionary(&[]), 0);
    assert!(matches!(generator.generate(), Some(CharacterFeature::HOBBIES(list)) if list.is_empty()));
}

#[test]
fn the_stats_generator_gives_distinct_names_within_a_character() {
    let all = ["might", "wit", "charm", "luck", "speed"];
    let mut generator: ChooseVecQuirkGenerator<Stat> = ChooseVecQuirkGenerator::new(dictionary(&all), 3);
    let mut counts = [0; 5];
    for _ in 0..200 {
        match generator.generate() {
            Some(CharacterFeature::STATS(stats)) => {
                assert_eq!(stats.len(), 3);
                for (i, stat) in stats.iter().enumerate() {
                    let at = all.iter().position(|n| *n == stat.name).unwrap();
                    counts[at] += 1;
                    assert!(1 <= stat.value && stat.value <= 100);
                    assert_eq!(stat.max_value, 100);
                    for other in &stats[..i] {
                        assert_ne!(other.name, stat.name);
                    }
                }
            },
            _ => panic!("stats are due"),
        }
        assert_eq!(generator.dict.len(), 5);
        for (i, name) in all.iter().enumerate() {
            assert_eq!(&generator.dict.term_at(i), name);
        }
    }
    assert!(counts.iter().all(|c| *c > 1));
}

#[test]
fn the_levels_generator_uses_every_name_of_an_exact_pool() {
    let all = ["first", "second", "third"];
    let mut generator: ChooseVecQuirkGenerator<Level> = ChooseVecQuirkGenerator::new(dictionary(&all), 3);
    for _ in 0..50 {
        match generator.generate() {
            Some(CharacterFeature::LEVELS(levels)) => {
                let mut names: Vec<&str> = levels.iter().map(|l| l.name.as_str()).collect();
                names.sort();
                assert_eq!(names, vec!["first", "second", "third"]);
                assert!(levels.iter().all(|l| 1 <= l.value && l.value <= 100 && l.max_value == 100));
            },
            _ => panic!("levels are due"),
        }
    }
}

#[test]
fn the_quirk_generator_yields_nothing_from_too_small_a_pool() {
    let mut generator: ChooseVecQuirkGenerator<Stat> =
        ChooseVecQuirkGenerator::new(dictionary(&["might", "wit"]), 3);
    assert!(generator.generate().is_none());
    assert_eq!(generator.dict.len(), 2);
    let mut generator: ChooseVecQuirkGenerator<Stat> = ChooseVecQuirkGenerator::new(dictionary(&[]), 0);
    assert!(matches!(generator.generate(), Some(CharacterFeature::STATS(list)) if list.is_empty()));
}

#[test]
fn the_props_generator_splits_each_term_into_type_and_name() {
    let taxonomies = vec![
        Taxonomy { kind: String::from("hat"), terms: words(&["bonnet", "fez"]) },
        Taxonomy { kind: String::from("pet"), terms: words(&["owl"]) },
    ];
    let dict = TwoLevelsDictionary::new(String::from("props"), taxonomies);
    let mut generator: ChooseVecQuirkGenerator<Property> = ChooseVecQuirkGenerator::new(dict, 3);
    for _ in 0..50 {
        match generator.generate() {
            Some(CharacterFeature::PROPS(props)) => {
                let mut pairs: Vec<(&str, &str)> =
                    props.iter().map(|p| (p.prop_type.as_str(), p.name.as_str())).collect();
                pairs.sort();
                assert_eq!(pairs, vec![("hat", "bonnet"), ("hat", "fez"), ("pet", "owl")]);
            },
            _ => panic!("properties are due"),
        }
        assert_eq!(generator.dict.len(), 2);
        assert_eq!(generator.dict.terms_len(0), 2);
        assert_eq!(generator.dict.terms_len(1), 1);
    }
}
