use rdf_editor::coordination::MutationCoordinator;
use rdf_editor::coordination::MutationOutcome;
use rdf_editor::models::NodeType;
use rdf_editor::models::RdfFormat;
use rdf_editor::models::RdfNode;
use rdf_editor::models::Triple;
use rdf_editor::RdfEditorError;
use rdf_editor::sparql::add_triple_to_default_update;
use rdf_editor::sparql::add_triple_update;
use rdf_editor::sparql::add_triples_batch_update;
use rdf_editor::sparql::build_import_update;
use rdf_editor::sparql::check_replace_compatible;
use rdf_editor::sparql::count_query;
use rdf_editor::sparql::delete_triples_batch_update;
use rdf_editor::sparql::determine_node_type;
use rdf_editor::sparql::export_ntriples;
use rdf_editor::sparql::find_graph_mismatch;
use rdf_editor::sparql::get_best_label;
use rdf_editor::sparql::get_short_label;
use rdf_editor::sparql::has_more_results;
use rdf_editor::sparql::hash_query;
use rdf_editor::sparql::is_select_query;
use rdf_editor::sparql::labels_cache_key;
use rdf_editor::sparql::normalize_graph_name;
use rdf_editor::sparql::replace_triple_update;
use rdf_editor::sparql::triples_paginated_query;
use rdf_editor::sparql::triples_query;
use rdf_editor::sparql::with_graph_update;
use rdf_editor::text::parse_u64;

fn uri_triple(s: &str, p: &str, o: &str) -> Triple {
    Triple {
        subject: s.to_string(),
        predicate: p.to_string(),
        object: RdfNode::Uri { value: o.to_string() },
        graph: None,
    }
}

#[test]
fn update_texts_are_exact() {
    let t = uri_triple("http://s", "http://p", "http://o");
    assert_eq!(
        add_triple_update(&t, "g"),
        "INSERT DATA { GRAPH <g> { <http://s> <http://p> <http://o> } }"
    );
    assert_eq!(
        add_triple_to_default_update(&t),
        "INSERT DATA { <http://s> <http://p> <http://o> }"
    );
    let t2 = uri_triple("http://s", "http://p", "http://n");
    assert_eq!(
        replace_triple_update(&t, &t2, "g"),
        "DELETE { GRAPH <g> { <http://s> <http://p> <http://o> } } \
         INSERT { GRAPH <g> { <http://s> <http://p> <http://n> } } \
         WHERE { GRAPH <g> { <http://s> <http://p> <http://o> } }"
    );
}

#[test]
fn literal_patterns_escape_and_tag() {
    let lit = Triple {
        subject: "http://s".to_string(),
        predicate: "http://p".to_string(),
        object: RdfNode::Literal {
            value: "he said \"hi\"\n".to_string(),
            datatype: None,
            language: Some("en".to_string()),
        },
        graph: None,
    };
    assert_eq!(
        lit.to_sparql_pattern(),
        "<http://s> <http://p> \"he said \\\"hi\\\"\\n\"@en"
    );
    let typed = Triple {
        subject: "http://s".to_string(),
        predicate: "http://p".to_string(),
        object: RdfNode::Literal {
            value: "5".to_string(),
            datatype: Some("http://www.w3.org/2001/XMLSchema#integer".to_string()),
            language: None,
        },
        graph: None,
    };
    assert_eq!(
        typed.to_sparql_pattern(),
        "<http://s> <http://p> \"5\"^^<http://www.w3.org/2001/XMLSchema#integer>"
    );
    let blank = Triple {
        subject: "http://s".to_string(),
        predicate: "http://p".to_string(),
        object: RdfNode::Blank { value: "b1".to_string() },
        graph: None,
    };
    assert_eq!(blank.to_sparql_pattern(), "<http://s> <http://p> _:b1");
}

#[test]
fn batch_updates_list_every_triple() {
    let ts = vec![
        uri_triple("http://s", "http://p", "http://a"),
        uri_triple("http://s", "http://p", "http://b"),
    ];
    assert_eq!(
        add_triples_batch_update(&ts, "g"),
        "INSERT DATA { GRAPH <g> { <http://s> <http://p> <http://a> \
         <http://s> <http://p> <http://b> } }"
    );
    assert_eq!(
        delete_triples_batch_update(&ts, "g"),
        "DELETE DATA { GRAPH <g> { <http://s> <http://p> <http://a> \
         <http://s> <http://p> <http://b> } }"
    );
}

#[test]
fn batch_graph_mismatch_is_found() {
    let mut ts = vec![uri_triple("http://s", "http://p", "http://a")];
    ts[0].graph = Some("g".to_string());
    let mut other = uri_triple("http://s", "http://p", "http://b");
    other.graph = Some("h".to_string());
    ts.push(other);
    assert_eq!(find_graph_mismatch(&ts, &"g".to_string()), Some("h".to_string()));
    ts.pop();
    assert_eq!(find_graph_mismatch(&ts, &"g".to_string()), None);
}

#[test]
fn replace_guard_rejects_changed_subject_or_predicate() {
    let a = uri_triple("http://s", "http://p", "http://o");
    let b = uri_triple("http://s", "http://p", "http://n");
    assert!(check_replace_compatible(&a, &b).is_ok());
    let c = uri_triple("http://other", "http://p", "http://n");
    assert!(matches!(
        check_replace_compatible(&a, &c),
        Err(RdfEditorError::InvalidInput(_))
    ));
}

#[test]
fn export_writes_one_statement_per_line() {
    let ts = vec![
        uri_triple("http://s", "http://p", "http://a"),
        uri_triple("http://s", "http://p", "http://b"),
    ];
    assert_eq!(
        export_ntriples(&ts),
        "<http://s> <http://p> <http://a> .\n<http://s> <http://p> <http://b> .\n"
    );
    assert_eq!(RdfFormat::NTriples.content_type(), "application/n-triples");
    assert_eq!(RdfFormat::NTriples.file_extension(), "nt");
}

#[test]
fn import_update_keeps_statements_and_counts_them() {
    let data = "<a> <b> <c> .\n# a comment\n\n<d> <e> <f>";
    let (update, count) = build_import_update(data, "g").unwrap();
    assert_eq!(count, 2);
    assert_eq!(update, "INSERT DATA { GRAPH <g> { <a> <b> <c> . <d> <e> <f> . } }");

    match build_import_update("# only a comment\n", "g") {
        Err(RdfEditorError::InvalidInput(_)) => {}
        other => panic!("expected invalid-input, got {:?}", other),
    }
}

#[test]
fn queries_are_exact() {
    let g = "g".to_string();
    assert_eq!(
        triples_query(Some(&g)),
        "SELECT ?s ?p ?o WHERE { GRAPH <g> { ?s ?p ?o } } LIMIT 1000"
    );
    assert_eq!(triples_query(None), "SELECT ?s ?p ?o WHERE { ?s ?p ?o } LIMIT 1000");
    assert_eq!(
        triples_paginated_query(Some(&g), 20, 40),
        "SELECT ?s ?p ?o WHERE { GRAPH <g> { ?s ?p ?o } } LIMIT 20 OFFSET 40"
    );
    assert_eq!(
        count_query(Some(&g)),
        "SELECT (COUNT(*) as ?count) WHERE { GRAPH <g> { ?s ?p ?o } }"
    );
    assert_eq!(with_graph_update("DELETE WHERE { ?s ?p ?o }", "g"),
        "WITH <g> DELETE WHERE { ?s ?p ?o }");
}

#[test]
fn graph_names_normalize() {
    assert_eq!(normalize_graph_name(&"default".to_string()), None);
    assert_eq!(normalize_graph_name(&"g".to_string()), Some("g".to_string()));
    assert_eq!(labels_cache_key("g"), "labels:g");
}

#[test]
fn node_classification_follows_first_marked_type() {
    let class = "http://www.w3.org/2002/07/owl#Class".to_string();
    let prop = "http://www.w3.org/2002/07/owl#ObjectProperty".to_string();
    let other = "http://example.com/T".to_string();
    assert_eq!(determine_node_type(&vec![other.clone(), class.clone()]), NodeType::Class);
    assert_eq!(determine_node_type(&vec![prop.clone(), class]), NodeType::Property);
    assert_eq!(determine_node_type(&vec![other]), NodeType::Instance);
    assert_eq!(determine_node_type(&Vec::new()), NodeType::Instance);
}

#[test]
fn short_labels_take_the_last_segment() {
    assert_eq!(get_short_label("http://x/y#Name"), Some("Name".to_string()));
    assert_eq!(get_short_label("http://x/y/Name"), Some("Name".to_string()));
    assert_eq!(get_short_label("http://x/y/"), None);
    assert_eq!(get_short_label("plain"), Some("plain".to_string()));
}

#[test]
fn best_label_prefers_english_then_untagged_then_first() {
    let labels = vec![
        ("de".to_string(), "Hallo".to_string()),
        ("en".to_string(), "Hello".to_string()),
    ];
    assert_eq!(get_best_label(&labels), Some("Hello".to_string()));
    let labels = vec![
        ("de".to_string(), "Hallo".to_string()),
        ("".to_string(), "Neutral".to_string()),
    ];
    assert_eq!(get_best_label(&labels), Some("Neutral".to_string()));
    let labels = vec![("de".to_string(), "Hallo".to_string())];
    assert_eq!(get_best_label(&labels), Some("Hallo".to_string()));
    assert_eq!(get_best_label(&Vec::new()), None);
}

#[test]
fn select_detection_ignores_case_and_leading_space() {
    assert!(is_select_query("  select ?s where { ?s ?p ?o }"));
    assert!(is_select_query("SELECT * { ?s ?p ?o }"));
    assert!(!is_select_query("INSERT DATA { <a> <b> <c> }"));
    assert!(!is_select_query("sel"));
}

#[test]
fn query_hashes_are_hex_and_distinguish_graphs() {
    let h1 = hash_query("SELECT 1", None);
    assert_eq!(h1.len(), 64);
    assert!(h1.chars().all(|c| c.is_ascii_hexdigit()));
    let h2 = hash_query("SELECT 1", Some(&"g".to_string()));
    assert_ne!(h1, h2);
    assert_eq!(h1, hash_query("SELECT 1", None));
}

#[test]
fn pagination_has_more() {
    assert!(has_more_results(10, 0, 5));
    assert!(!has_more_results(10, 5, 5));
    assert!(!has_more_results(0, 0, 0));
    assert!(!has_more_results(3, usize::MAX, 1));
}

#[test]
fn number_parsing_edges() {
    assert_eq!(parse_u64("0"), Some(0));
    assert_eq!(parse_u64("18446744073709551615"), Some(u64::MAX));
    assert_eq!(parse_u64("18446744073709551616"), None);
    assert_eq!(parse_u64("12a"), None);
    assert_eq!(parse_u64(""), None);
    assert_eq!(parse_u64("-1"), None);
}

#[test]
fn error_reporting_shape() {
    let e = RdfEditorError::NotFound("x".to_string());
    assert_eq!(e.http_status(), 404);
    assert_eq!(e.error_type(), "not_found");
    assert_eq!(e.detail(), "x");
    let e = RdfEditorError::Sparql("y".to_string());
    assert_eq!(e.http_status(), 502);
    assert_eq!(e.error_type(), "sparql");
    let e = RdfEditorError::UnsupportedOperation("z".to_string());
    assert_eq!(e.http_status(), 400);
    assert_eq!(e.error_type(), "unsupported_operation");
}

#[test]
fn coordination_orders_apply_log_invalidate() {
    // Success path: apply, log, invalidate, report success.
    let mut m = MutationCoordinator::new();
    assert!(!m.may_log());
    assert!(!m.may_invalidate());
    m.apply_succeeded();
    assert!(m.may_log());
    assert!(m.may_invalidate());
    m.log_succeeded();
    assert!(!m.may_log());
    assert!(m.may_invalidate());
    assert_eq!(m.outcome(), MutationOutcome::Success);

    // A failed apply ends the mutation: nothing may be logged or staled.
    let mut m = MutationCoordinator::new();
    m.apply_failed();
    assert!(!m.may_log());
    assert!(!m.may_invalidate());
    assert_eq!(m.outcome(), MutationOutcome::Failed);

    // A failed log leaves the mutation successful but unaudited.
    let mut m = MutationCoordinator::new();
    m.apply_succeeded();
    m.log_failed();
    assert!(m.may_invalidate());
    assert_eq!(m.outcome(), MutationOutcome::SuccessUnaudited);
}
