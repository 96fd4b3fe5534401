use std::collections::HashMap;

use course_search::catalog::Catalog;
use course_search::course::Class;
use course_search::engine::{
    finish_search, gather_page, ranked_window, search, Query, SearchError, TextIndex, PAGE_SIZE,
};
use course_search::filter::Filter;
use course_search::requirement::Requirement;
use tantivy::query::QueryParser;
use tantivy::schema::{IndexRecordOption, Schema, TextFieldIndexing, TextOptions, STORED};
use tantivy::tokenizer::{LowerCaser, NgramTokenizer, TextAnalyzer};
use tantivy::{Index, IndexWriter, TantivyDocument};

fn course(code: &str, title: &str, requirements: Vec<Requirement>) -> Class {
    Class {
        code: code.to_string(),
        class_type: String::new(),
        count: String::new(),
        title: title.to_string(),
        subtitle: String::new(),
        special: String::new(),
        link: String::new(),
        instructor: String::new(),
        days: String::new(),
        start: String::new(),
        end: String::new(),
        location: String::new(),
        id: String::new(),
        units: String::new(),
        mode: String::new(),
        course_description: String::new(),
        class_description: String::new(),
        capacity: 0,
        enrolled: 0,
        waitlist: 0,
        waitlist_max: 0,
        requirements,
        seats: HashMap::new(),
    }
}

fn build_index(catalog: &Catalog) -> TextIndex {
    let options = TextOptions::default().set_indexing_options(
        TextFieldIndexing::default()
            .set_tokenizer("course_search")
            .set_index_option(IndexRecordOption::WithFreqsAndPositions),
    );
    let mut builder = Schema::builder();
    let idx = builder.add_u64_field("idx", STORED);
    let code = builder.add_text_field("code", options.clone());
    let title = builder.add_text_field("title", options.clone());
    let subtitle = builder.add_text_field("subtitle", options.clone());
    let special = builder.add_text_field("special", options.clone());
    let course_description = builder.add_text_field("course_description", options.clone());
    let class_description = builder.add_text_field("class_description", options);
    let index = Index::create_in_ram(builder.build());
    let analyzer = TextAnalyzer::builder(NgramTokenizer::new(3, 6, false).unwrap())
        .filter(LowerCaser)
        .build();
    index.tokenizers().register("course_search", analyzer);
    let mut writer: IndexWriter = index.writer_with_num_threads(1, 20_000_000).unwrap();
    for (i, c) in catalog.courses().iter().enumerate() {
        let mut d = TantivyDocument::new();
        d.add_u64(idx, i as u64);
        d.add_text(code, &c.code);
        d.add_text(title, &c.title);
        d.add_text(subtitle, &c.subtitle);
        d.add_text(special, &c.special);
        d.add_text(course_description, &c.course_description);
        d.add_text(class_description, &c.class_description);
        writer.add_document(d).unwrap();
    }
    writer.commit().unwrap();
    let searcher = index.reader().unwrap().searcher();
    let fields = vec![code, title, subtitle, special, course_description, class_description];
    let mut parser = QueryParser::for_index(&index, fields);
    parser.set_field_boost(code, 5.0);
    parser.set_field_boost(title, 3.0);
    parser.set_field_boost(subtitle, 1.5);
    parser.set_field_boost(special, 1.5);
    parser.set_field_boost(course_description, 0.5);
    parser.set_field_boost(class_description, 0.5);
    TextIndex { searcher, parser, position_field: idx }
}

fn no_filter() -> Filter {
    Filter { requirements: None, requirements_or: false }
}

fn codes(catalog: &Catalog, page: &[usize]) -> Vec<String> {
    page.iter().map(|&p| catalog.get(p).unwrap().code.clone()).collect()
}

fn three_courses() -> Catalog {
    Catalog::load(vec![
        course("CS61A", "Structure and Interpretation", vec![]),
        course("CS61B", "Data Structures", vec![]),
        course("MATH1A", "Calculus", vec![]),
    ])
}

#[test]
fn code_query_ranks_matching_course_first() {
    let catalog = three_courses();
    let index = build_index(&catalog);
    let q = Query { keywords: "61a".to_string(), offset: 0, filters: no_filter() };
    let page = codes(&catalog, &search(&index, &catalog, &q));
    assert_eq!(page.first().map(|s| s.as_str()), Some("CS61A"));
    assert!(!page.contains(&"MATH1A".to_string()));
}

#[test]
fn exact_code_query_comes_before_looser_matches() {
    let catalog = Catalog::load(vec![
        course("CS61B", "Data Structures after CS61A", vec![]),
        course("CS61A", "Structure", vec![]),
        course("EE16A", "Designing Information Devices, see CS61A", vec![]),
    ]);
    let index = build_index(&catalog);
    let q = Query { keywords: "CS61A".to_string(), offset: 0, filters: no_filter() };
    let page = codes(&catalog, &search(&index, &catalog, &q));
    assert_eq!(page.len(), 3);
    assert_eq!(page[0], "CS61A");
}

#[test]
fn repeated_queries_give_the_same_page() {
    let catalog = three_courses();
    let index = build_index(&catalog);
    let q = Query { keywords: "structure".to_string(), offset: 0, filters: no_filter() };
    let first = search(&index, &catalog, &q);
    let second = search(&index, &catalog, &q);
    assert_eq!(first, second);
    assert!(!first.is_empty());
}

#[test]
fn strict_filter_exhausts_small_index() {
    let mut raw = Vec::new();
    for i in 0..120 {
        let tags = if i % 10 == 0 { vec![Requirement::PhysicalScience] } else { vec![] };
        raw.push(course(&format!("PHYS{}", i), "Physics course", tags));
    }
    let catalog = Catalog::load(raw);
    let index = build_index(&catalog);
    let filter = Filter { requirements: Some(vec![Requirement::PhysicalScience]), requirements_or: false };
    let q = Query { keywords: "physics".to_string(), offset: 0, filters: filter };
    let page = search(&index, &catalog, &q);
    assert_eq!(page.len(), 12);
    assert!(page.len() < PAGE_SIZE);
    for p in &page {
        assert_eq!(catalog.get(*p).unwrap().requirements, vec![Requirement::PhysicalScience]);
    }
}

#[test]
fn window_widens_until_page_is_full() {
    let mut raw = Vec::new();
    for i in 0..200 {
        let tags = if i % 2 == 0 { vec![Requirement::ReadingCompA] } else { vec![] };
        raw.push(course(&format!("ENG{}", i), "English reading", tags));
    }
    let catalog = Catalog::load(raw);
    let index = build_index(&catalog);
    let filter = Filter { requirements: Some(vec![Requirement::ReadingCompA]), requirements_or: true };
    let page = gather_page(&index, &catalog, "english", &filter, 0).unwrap();
    assert!(page.len() >= PAGE_SIZE);
    let all = gather_page(&index, &catalog, "english", &no_filter(), 0).unwrap();
    assert_eq!(all.len(), PAGE_SIZE);
}

#[test]
fn offset_past_the_end_gives_empty_page() {
    let catalog = three_courses();
    let index = build_index(&catalog);
    let q = Query { keywords: "structure".to_string(), offset: 50, filters: no_filter() };
    assert!(search(&index, &catalog, &q).is_empty());
}

#[test]
fn malformed_query_gives_empty_page() {
    let catalog = three_courses();
    let index = build_index(&catalog);
    let q = Query { keywords: "title:(".to_string(), offset: 0, filters: no_filter() };
    assert!(search(&index, &catalog, &q).is_empty());
    assert!(gather_page(&index, &catalog, "title:(", &no_filter(), 0).is_err());
}

#[test]
fn ranked_window_reads_stored_positions() {
    let catalog = three_courses();
    let index = build_index(&catalog);
    let hits = ranked_window(&index, "structure", 50, 0).unwrap();
    assert_eq!(hits.len(), 2);
    assert!(hits.iter().all(|h| matches!(h, Some(p) if *p < 3)));
    let one = ranked_window(&index, "structure", 1, 0).unwrap();
    assert_eq!(one.len(), 1);
    assert_eq!(one[0], hits[0]);
    assert!(ranked_window(&index, "structure", 50, 2).unwrap().is_empty());
    assert!(matches!(ranked_window(&index, "title:(", 50, 0), Err(SearchError::QueryParse)));
}

#[test]
fn finish_search_orders_prefix_matches_first() {
    let catalog = Catalog::load(vec![
        course("CS61A", "x", vec![]),
        course("CS61B", "x", vec![]),
        course("EE16A", "x", vec![]),
    ]);
    let q = Query { keywords: "CS61A".to_string(), offset: 0, filters: no_filter() };
    assert_eq!(finish_search(&catalog, &q, Ok(vec![1, 0, 2])), vec![0, 1, 2]);
    let q = Query { keywords: "cs61".to_string(), offset: 0, filters: no_filter() };
    assert_eq!(finish_search(&catalog, &q, Ok(vec![2, 1, 0])), vec![1, 0, 2]);
    assert_eq!(finish_search(&catalog, &q, Ok(vec![])), Vec::<usize>::new());
}

#[test]
fn finish_search_turns_failure_into_empty_page() {
    let catalog = three_courses();
    let q = Query { keywords: "cs".to_string(), offset: 0, filters: no_filter() };
    assert!(finish_search(&catalog, &q, Err(SearchError::QueryParse)).is_empty());
    assert!(finish_search(&catalog, &q, Err(SearchError::Index)).is_empty());
}

#[test]
fn gather_page_past_the_catalog_is_empty() {
    let catalog = three_courses();
    let index = build_index(&catalog);
    assert_eq!(gather_page(&index, &catalog, "structure", &no_filter(), 3).unwrap(), Vec::<usize>::new());
    assert_eq!(gather_page(&index, &catalog, "title:(", &no_filter(), 7).unwrap(), Vec::<usize>::new());
}
