use charuster::dictionary::Dictionary;
use charuster::term::split_term;
use charuster::two_levels::join_term;
use charuster::two_levels::Taxonomy;
use charuster::two_levels::TwoLevelsDictionary;

fn taxonomies() -> Vec<Taxonomy> {
    (1..=3)
        .map(|k| Taxonomy {
            kind: format!("term_{}", k),
            terms: (1..=3).map(|t| format!("sub_term_{}_{}", k, t)).collect(),
        })
        .collect()
}

fn test_two_levels_dictionary() -> TwoLevelsDictionary {
    TwoLevelsDictionary::new(String::from("test_two_levels_dictionary.json"), taxonomies())
}

fn assert_is_entry(term: &str) {
    assert_eq!(term.matches('+').count(), 1);
    let (kind, sub_term) = term.split_once('+').unwrap();
    let taxonomy = taxonomies().into_iter().find(|t| t.kind == kind).unwrap();
    assert!(taxonomy.terms.iter().any(|t| t == sub_term));
}

#[test]
fn a_two_levels_dictionary_holds_what_it_was_given() {
    let dict = test_two_levels_dictionary();
    assert_eq!(dict.name(), "test_two_levels_dictionary.json");
    assert_eq!(dict.len(), 3);
    assert_eq!(dict.terms_len(0), 3);
    assert_eq!(dict.terms_len(1), 3);
    assert_eq!(dict.terms_len(2), 3);
    assert_eq!(dict.entry_at(0, 0), "term_1+sub_term_1_1");
    assert_eq!(dict.entry_at(0, 1), "term_1+sub_term_1_2");
    assert_eq!(dict.entry_at(0, 2), "term_1+sub_term_1_3");
    assert_eq!(dict.entry_at(1, 0), "term_2+sub_term_2_1");
    assert_eq!(dict.entry_at(1, 1), "term_2+sub_term_2_2");
    assert_eq!(dict.entry_at(1, 2), "term_2+sub_term_2_3");
    assert_eq!(dict.entry_at(2, 0), "term_3+sub_term_3_1");
    assert_eq!(dict.entry_at(2, 1), "term_3+sub_term_3_2");
    assert_eq!(dict.entry_at(2, 2), "term_3+sub_term_3_3");
}

#[test]
fn two_levels_choice_is_a_kind_and_one_of_its_sub_terms() {
    let dict = test_two_levels_dictionary();
    for _ in 0..200 {
        let term = dict.choose_term().unwrap();
        assert_is_entry(&term);
        assert_eq!(dict.len(), 3);
    }
}

#[test]
fn two_levels_removal_hands_out_each_entry_once() {
    for _ in 0..50 {
        let mut dict = test_two_levels_dictionary();
        let mut seen: Vec<String> = Vec::new();
        for _ in 0..9 {
            let term = dict.choose_and_remove().unwrap();
            assert_is_entry(&term);
            assert!(!seen.contains(&term));
            seen.push(term);
        }
        assert_eq!(dict.len(), 0);
        assert!(dict.choose_and_remove().is_none());
        assert!(dict.choose_term().is_none());
    }
}

#[test]
fn an_empty_two_levels_dictionary_yields_nothing() {
    let mut dict = TwoLevelsDictionary::new(String::from("none"), vec![]);
    assert!(dict.choose_term().is_none());
    assert!(dict.choose_and_remove().is_none());
    assert_eq!(dict.len(), 0);
}

#[test]
fn an_exhausted_taxonomy_yields_nothing_and_leaves() {
    let empty = Taxonomy { kind: String::from("bare"), terms: vec![] };
    let mut dict = TwoLevelsDictionary::new(String::from("bare"), vec![empty]);
    assert!(dict.choose_term().is_none());
    assert_eq!(dict.len(), 1);
    assert!(dict.choose_and_remove().is_none());
    assert_eq!(dict.len(), 0);
}

#[test]
fn removing_an_entry_keeps_the_taxonomy_until_its_last_sub_term() {
    let mut dict = test_two_levels_dictionary();
    assert_eq!(dict.remove_entry(0, 0), "term_1+sub_term_1_1");
    assert_eq!(dict.len(), 3);
    assert_eq!(dict.terms_len(0), 2);
    assert_eq!(dict.entry_at(0, 0), "term_1+sub_term_1_3");
    assert_eq!(dict.entry_at(0, 1), "term_1+sub_term_1_2");
    assert_eq!(dict.remove_entry(0, 1), "term_1+sub_term_1_2");
    assert_eq!(dict.len(), 3);
    assert_eq!(dict.remove_entry(0, 0), "term_1+sub_term_1_3");
    assert_eq!(dict.len(), 2);
    assert_eq!(dict.entry_at(0, 0), "term_3+sub_term_3_1");
    assert_eq!(dict.entry_at(1, 0), "term_2+sub_term_2_1");
    assert_eq!(dict.name(), "test_two_levels_dictionary.json");
}

#[test]
fn removing_a_kind_moves_the_last_kind_into_its_place() {
    let mut dict = test_two_levels_dictionary();
    dict.remove_kind(0);
    assert_eq!(dict.len(), 2);
    assert_eq!(dict.entry_at(0, 0), "term_3+sub_term_3_1");
    assert_eq!(dict.entry_at(1, 0), "term_2+sub_term_2_1");
}

#[test]
fn a_two_levels_snapshot_is_a_separate_copy() {
    let dict = test_two_levels_dictionary();
    let mut copy = dict.snapshot();
    assert_eq!(copy.name(), "test_two_levels_dictionary.json");
    assert_eq!(copy.len(), 3);
    assert_eq!(copy.entry_at(2, 2), "term_3+sub_term_3_3");
    copy.remove_kind(0);
    assert_eq!(copy.len(), 2);
    assert_eq!(dict.len(), 3);
    assert_eq!(dict.entry_at(0, 0), "term_1+sub_term_1_1");
}

#[test]
fn joining_puts_the_delimiter_between() {
    assert_eq!(join_term(&String::from("kind"), &String::from("term")), "kind+term");
    assert_eq!(join_term(&String::new(), &String::new()), "+");
    assert_eq!(join_term(&String::from("a+b"), &String::from("c")), "a+b+c");
}

#[test]
fn splitting_takes_the_first_two_segments() {
    assert_eq!(split_term("kind+term"), Some((String::from("kind"), String::from("term"))));
    assert_eq!(split_term("a+b+c"), Some((String::from("a"), String::from("b"))));
    assert_eq!(split_term("+"), Some((String::new(), String::new())));
    assert_eq!(split_term("kind+"), Some((String::from("kind"), String::new())));
    assert_eq!(split_term("+term"), Some((String::new(), String::from("term"))));
    assert_eq!(split_term("no delimiter"), None);
    assert_eq!(split_term(""), None);
    assert_eq!(split_term("càffè+tè"), Some((String::from("càffè"), String::from("tè"))));
}

#[test]
fn splitting_undoes_joining() {
    for taxonomy in taxonomies() {
        for term in &taxonomy.terms {
            let whole = join_term(&taxonomy.kind, term);
            assert_eq!(whole.matches('+').count(), 1);
            assert_eq!(split_term(&whole), Some((taxonomy.kind.clone(), term.clone())));
        }
    }
}
