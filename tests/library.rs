use std::collections::HashMap;

use course_search::catalog::Catalog;
use course_search::course::Class;
use course_search::engine::{collect_window, next_window, Query, PAGE_SIZE};
use course_search::filter::Filter;
use course_search::rank::{has_prefix, prefix_first};
use course_search::requirement::Requirement;
use course_search::tokenizer::tokenize;

fn course(code: &str, title: &str, requirements: Vec<Requirement>) -> Class {
    Class {
        code: code.to_string(),
        class_type: "LEC".to_string(),
        count: "001".to_string(),
        title: title.to_string(),
        subtitle: String::new(),
        special: String::new(),
        link: String::new(),
        instructor: String::new(),
        days: String::new(),
        start: String::new(),
        end: String::new(),
        location: String::new(),
        id: String::new(),
        units: "4".to_string(),
        mode: String::new(),
        course_description: String::new(),
        class_description: String::new(),
        capacity: 100,
        enrolled: 10,
        waitlist: 0,
        waitlist_max: 20,
        requirements,
        seats: HashMap::new(),
    }
}

#[test]
fn unknown_label_round_trips() {
    let r = Requirement::from_label("Some New Requirement".to_string());
    assert_eq!(r, Requirement::Other("Some New Requirement".to_string()));
    assert_eq!(r.label(), "Some New Requirement");
}

#[test]
fn known_labels_read_to_their_variants() {
    assert_eq!(
        Requirement::from_label("the American Cultures requirement".to_string()),
        Requirement::AmericanCultures
    );
    assert_eq!(
        Requirement::from_label("Social & Behavioral Sciences, L&S Breadth".to_string()),
        Requirement::SocialBehavioral
    );
    assert_eq!(
        Requirement::from_label("the Reading and Composition B requirement".to_string()),
        Requirement::ReadingCompB
    );
    assert_eq!(
        Requirement::ArtsLiterature.label(),
        "Arts & Literature, L&S Breadth"
    );
    let back = Requirement::from_label(Requirement::HistoricalStudies.label());
    assert_eq!(back, Requirement::HistoricalStudies);
}

#[test]
fn requirement_equality_by_variant_and_label() {
    assert_eq!(Requirement::Other("x".to_string()), Requirement::Other("x".to_string()));
    assert_ne!(Requirement::Other("x".to_string()), Requirement::Other("y".to_string()));
    assert_ne!(Requirement::AmericanCultures, Requirement::AmericanHist);
    assert_ne!(
        Requirement::Other("the American Cultures requirement".to_string()),
        Requirement::AmericanCultures
    );
}

#[test]
fn no_requirements_passes_everything() {
    let f = Filter { requirements: None, requirements_or: false };
    let g = Filter { requirements: None, requirements_or: true };
    let a = course("CS61A", "A", vec![]);
    let b = course("CS61B", "B", vec![Requirement::PhysicalScience]);
    assert!(f.filter(&a) && f.filter(&b) && g.filter(&a) && g.filter(&b));
}

#[test]
fn and_filter_needs_every_tag() {
    let f = Filter {
        requirements: Some(vec![Requirement::AmericanCultures, Requirement::ArtsLiterature]),
        requirements_or: false,
    };
    let both = course("A1", "x", vec![Requirement::ArtsLiterature, Requirement::AmericanCultures]);
    let one = course("A2", "x", vec![Requirement::AmericanCultures]);
    let none = course("A3", "x", vec![]);
    assert!(f.filter_requirements(&both));
    assert!(!f.filter_requirements(&one));
    assert!(!f.filter_requirements(&none));
    let empty = Filter { requirements: Some(vec![]), requirements_or: false };
    assert!(empty.filter(&none));
}

#[test]
fn or_filter_needs_one_tag() {
    let f = Filter {
        requirements: Some(vec![Requirement::AmericanCultures, Requirement::Other("Z".to_string())]),
        requirements_or: true,
    };
    let z = course("A1", "x", vec![Requirement::Other("Z".to_string())]);
    let other = course("A2", "x", vec![Requirement::ReadingCompA]);
    assert!(f.filter(&z));
    assert!(!f.filter(&other));
    let empty = Filter { requirements: Some(vec![]), requirements_or: true };
    assert!(!empty.filter(&z));
}

#[test]
fn single_tag_and_or_agree() {
    let tag = Requirement::BiologicalScience;
    let and = Filter { requirements: Some(vec![tag.clone()]), requirements_or: false };
    let or = Filter { requirements: Some(vec![tag]), requirements_or: true };
    for tags in [
        vec![],
        vec![Requirement::BiologicalScience],
        vec![Requirement::PhysicalScience],
        vec![Requirement::PhysicalScience, Requirement::BiologicalScience],
    ] {
        let c = course("B1", "x", tags);
        assert_eq!(and.filter(&c), or.filter(&c));
    }
}

#[test]
fn tokenizing_ignores_case() {
    let mut upper = tokenize("CS61A");
    let mut lower = tokenize("cs61a");
    upper.sort();
    upper.dedup();
    lower.sort();
    lower.dedup();
    assert_eq!(upper, lower);
    assert!(upper.contains(&"cs6".to_string()));
    assert!(upper.contains(&"cs61a".to_string()));
    assert!(!upper.contains(&"CS6".to_string()));
}

#[test]
fn tokens_are_three_to_six_characters() {
    let t = tokenize("abcdefgh");
    assert!(t.iter().all(|s| s.chars().count() >= 3 && s.chars().count() <= 6));
    assert!(t.contains(&"abc".to_string()));
    assert!(t.contains(&"cdefgh".to_string()));
    assert!(!t.contains(&"abcdefg".to_string()));
}

#[test]
fn short_text_is_one_lowercase_token() {
    assert_eq!(tokenize("Ab"), vec!["ab".to_string()]);
    assert_eq!(tokenize(""), vec![String::new()]);
}

#[test]
fn catalog_orders_codes_naturally() {
    let cat = Catalog::load(vec![
        course("CS10", "x", vec![]),
        course("CS2", "x", vec![]),
        course("CS1", "x", vec![]),
        course("CS100", "x", vec![]),
    ]);
    let codes: Vec<&str> = cat.courses().iter().map(|c| c.code.as_str()).collect();
    assert_eq!(codes, vec!["CS1", "CS2", "CS10", "CS100"]);
    assert_eq!(cat.len(), 4);
    assert_eq!(cat.get(2).map(|c| c.code.as_str()), Some("CS10"));
    assert!(cat.get(4).is_none());
}

#[test]
fn catalog_keeps_order_of_equal_codes() {
    let cat = Catalog::load(vec![
        course("CS2", "second", vec![]),
        course("CS1", "first", vec![]),
        course("CS2", "third", vec![]),
    ]);
    let titles: Vec<&str> = cat.courses().iter().map(|c| c.title.as_str()).collect();
    assert_eq!(titles, vec!["first", "second", "third"]);
}

#[test]
fn prefix_matches_come_first() {
    let page = vec![1, 0, 2];
    let codes = vec!["cs61b".to_string(), "cs61a".to_string(), "ee16a".to_string()];
    assert_eq!(prefix_first(&page, &codes, "cs61a"), vec![0, 1, 2]);
    let codes = vec!["cs61b".to_string(), "ee16a".to_string(), "cs61a".to_string()];
    assert_eq!(prefix_first(&page, &codes, "cs61"), vec![1, 2, 0]);
    assert_eq!(prefix_first(&page, &codes, "zz"), vec![1, 0, 2]);
    assert_eq!(prefix_first(&page, &codes, ""), vec![1, 0, 2]);
}

#[test]
fn prefix_test_on_characters() {
    assert!(has_prefix("cs61a", "cs6"));
    assert!(has_prefix("cs61a", ""));
    assert!(!has_prefix("cs", "cs61a"));
    assert!(!has_prefix("cs61a", "CS"));
}

#[test]
fn window_keeps_admitted_hits_in_order() {
    let cat = Catalog::load(vec![
        course("A1", "x", vec![Requirement::AmericanCultures]),
        course("A2", "x", vec![]),
        course("A3", "x", vec![Requirement::AmericanCultures]),
    ]);
    let f = Filter { requirements: Some(vec![Requirement::AmericanCultures]), requirements_or: false };
    let mut page = vec![7];
    collect_window(&cat, &f, &vec![Some(2), Some(1), None, Some(9), Some(0)], &mut page);
    assert_eq!(page, vec![7, 2, 0]);
}

#[test]
fn query_holds_its_parts() {
    let q = Query {
        keywords: "61a".to_string(),
        offset: 0,
        filters: Filter { requirements: None, requirements_or: false },
    };
    assert_eq!(q.keywords, "61a");
    assert_eq!(q.offset, 0);
}


#[test]
fn next_window_advances_by_a_page() {
    assert_eq!(PAGE_SIZE, 50);
    assert_eq!(next_window(10, 50, 0, 120), Some(50));
    assert_eq!(next_window(49, 50, 50, 120), Some(100));
    assert_eq!(next_window(12, 20, 100, 120), None);
}

#[test]
fn next_window_stops_on_full_page_or_empty_window() {
    assert_eq!(next_window(50, 50, 0, 1000), None);
    assert_eq!(next_window(75, 50, 0, 1000), None);
    assert_eq!(next_window(0, 0, 0, 1000), None);
    assert_eq!(next_window(0, 50, 950, 1000), None);
}

#[test]
fn three_character_text_is_its_own_token() {
    assert_eq!(tokenize("ABC"), vec!["abc".to_string()]);
    let t = tokenize("abcd");
    assert_eq!(t.len(), 3);
    assert!(t.contains(&"abcd".to_string()) && t.contains(&"bcd".to_string()));
}
