use rdf_editor::codec::encode_record;
use rdf_editor::codec::parse_record;
use rdf_editor::models::RdfNode;
use rdf_editor::models::Triple;
use rdf_editor::text::chars_of;
use rdf_editor::transaction_log::TransactionLogger;
use rdf_editor::transaction_log::TransactionRecord;
use rdf_editor::transaction_log::TransactionType;
use rdf_editor::transaction_log::get_recent_transactions;

fn uri_triple(s: &str, p: &str, o: &str) -> Triple {
    Triple {
        subject: s.to_string(),
        predicate: p.to_string(),
        object: RdfNode::Uri { value: o.to_string() },
        graph: None,
    }
}

fn sample_record(id: &str, tt: TransactionType) -> TransactionRecord {
    TransactionRecord {
        id: id.to_string(),
        timestamp: 1700000000123,
        transaction_type: tt,
        graph: Some("http://g".to_string()),
        old_data: None,
        new_data: Some(vec![uri_triple("http://s", "http://p", "http://o")]),
        description: "sample".to_string(),
        user_id: None,
        user_name: None,
    }
}

#[test]
fn immediate_mode_returns_exactly_one_line() {
    let mut logger = TransactionLogger::new();
    let graph = "g".to_string();
    let triple = uri_triple("http://s", "http://p", "http://o");
    let (id, line) = logger.log_add_triple(Some(&graph), &triple, None);

    let line = line.expect("immediate mode must hand back a line");
    assert!(line.ends_with('\n'));
    // Exactly one line: the only newline is the final one.
    assert_eq!(line.matches('\n').count(), 1);

    let body = &line[..line.len() - 1];
    let rec = parse_record(&chars_of(body)).expect("the logged line must parse");
    assert_eq!(rec.id, id);
    assert_eq!(rec.transaction_type, TransactionType::AddTriple);
    assert_eq!(rec.graph, Some("g".to_string()));
    assert_eq!(rec.old_data, None);
    assert_eq!(rec.new_data, Some(vec![triple]));
    assert_eq!(rec.description, "Added triple: <http://s> <http://p> <http://o>");
}

#[test]
fn batch_mode_buffers_and_preserves_order() {
    let mut logger = TransactionLogger::new();
    let a = uri_triple("http://s", "http://p", "http://a");
    let b = uri_triple("http://s", "http://p", "http://b");

    logger.start_batch();
    let (id_a, line_a) = logger.log_add_triple(None, &a, None);
    let (id_b, line_b) = logger.log_add_triple(None, &b, None);
    // The file is untouched while the batch is open: no line is produced.
    assert_eq!(line_a, None);
    assert_eq!(line_b, None);

    let lines = logger.end_batch();
    assert_eq!(lines.len(), 2);
    let rec_a = parse_record(&chars_of(lines[0].trim_end())).unwrap();
    let rec_b = parse_record(&chars_of(lines[1].trim_end())).unwrap();
    assert_eq!(rec_a.id, id_a);
    assert_eq!(rec_b.id, id_b);
    assert_eq!(rec_a.new_data.unwrap()[0].object, RdfNode::Uri { value: "http://a".to_string() });
    assert_eq!(rec_b.new_data.unwrap()[0].object, RdfNode::Uri { value: "http://b".to_string() });

    // A second end_batch has nothing left to drain.
    logger.start_batch();
    assert_eq!(logger.end_batch().len(), 0);
}

#[test]
fn can_undo_exactly_for_single_triple_types() {
    assert!(TransactionType::AddTriple.can_undo());
    assert!(TransactionType::DeleteTriple.can_undo());
    assert!(TransactionType::ReplaceTriple.can_undo());
    assert!(!TransactionType::AddTriplesBatch.can_undo());
    assert!(!TransactionType::DeleteTriplesBatch.can_undo());
    assert!(!TransactionType::DropGraph.can_undo());
    assert!(!TransactionType::ImportData.can_undo());
}

#[test]
fn recent_transactions_skips_malformed_and_orders_recent_first() {
    let r1 = sample_record("id-1", TransactionType::AddTriple);
    let r2 = sample_record("id-2", TransactionType::DeleteTriple);
    let r3 = sample_record("id-3", TransactionType::ImportData);

    let mut text = String::new();
    text.push_str(&encode_record(&r1));
    text.push('\n');
    text.push_str("{\"this line is\": \"corrupt");
    text.push('\n');
    text.push_str(&encode_record(&r2));
    text.push('\n');
    text.push_str(&encode_record(&r3));
    text.push('\n');

    let entries = get_recent_transactions(&text, 2);
    assert_eq!(entries.len(), 2);
    assert_eq!(entries[0].record.id, "id-3");
    assert_eq!(entries[1].record.id, "id-2");
    assert!(!entries[0].can_undo); // ImportData
    assert!(entries[1].can_undo); // DeleteTriple

    let all = get_recent_transactions(&text, 50);
    assert_eq!(all.len(), 3);
    assert_eq!(all[2].record.id, "id-1");
}

#[test]
fn recent_transactions_tolerates_truncated_last_line() {
    let r1 = sample_record("id-1", TransactionType::AddTriple);
    let mut text = String::new();
    text.push_str(&encode_record(&r1));
    text.push('\n');
    let full = encode_record(&sample_record("id-2", TransactionType::AddTriple));
    text.push_str(&full[..full.len() / 2]); // a mid-write crash cut this line short

    let entries = get_recent_transactions(&text, 10);
    assert_eq!(entries.len(), 1);
    assert_eq!(entries[0].record.id, "id-1");
}

#[test]
fn codec_round_trips_awkward_values() {
    let rec = TransactionRecord {
        id: "we\"ird\\id\n".to_string(),
        timestamp: u64::MAX,
        transaction_type: TransactionType::ReplaceTriple,
        graph: None,
        old_data: Some(vec![
            Triple {
                subject: "s with space".to_string(),
                predicate: "p\t".to_string(),
                object: RdfNode::Literal {
                    value: "line1\nline2\r\"quoted\"".to_string(),
                    datatype: Some("http://www.w3.org/2001/XMLSchema#string".to_string()),
                    language: None,
                },
                graph: Some("g".to_string()),
            },
            Triple {
                subject: "s2".to_string(),
                predicate: "p2".to_string(),
                object: RdfNode::Blank { value: "b1".to_string() },
                graph: None,
            },
        ]),
        new_data: Some(vec![Triple {
            subject: "s3".to_string(),
            predicate: "p3".to_string(),
            object: RdfNode::Literal {
                value: "hallo".to_string(),
                datatype: None,
                language: Some("de".to_string()),
            },
            graph: None,
        }]),
        description: "desc with \\ and \"".to_string(),
        user_id: Some("user-1".to_string()),
        user_name: None,
    };
    let line = encode_record(&rec);
    let parsed = parse_record(&chars_of(&line)).expect("canonical encoding must parse");
    assert_eq!(parsed, rec);
}

#[test]
fn encoded_line_is_plain_json() {
    let rec = sample_record("id-x", TransactionType::AddTriple);
    let line = encode_record(&rec);
    let value: serde_json::Value = serde_json::from_str(&line).expect("line must be valid JSON");
    assert_eq!(value["id"], "id-x");
    assert_eq!(value["transaction_type"], "AddTriple");
    assert_eq!(value["timestamp"].as_u64(), Some(1700000000123));
    assert_eq!(value["graph"], "http://g");
    assert!(value["old_data"].is_null());
    assert_eq!(value["new_data"][0]["subject"], "http://s");
    assert_eq!(value["new_data"][0]["object"]["type"], "uri");
    assert_eq!(value["user_name"], serde_json::Value::Null);
}

#[test]
fn parse_rejects_non_canonical_lines() {
    assert_eq!(parse_record(&chars_of("")), None);
    assert_eq!(parse_record(&chars_of("not json")), None);
    assert_eq!(parse_record(&chars_of("{\"id\":\"x\"}")), None);
    // Trailing garbage after a full record is rejected too.
    let mut line = encode_record(&sample_record("id-y", TransactionType::DropGraph));
    line.push_str("  ");
    assert_eq!(parse_record(&chars_of(&line)), None);
}
