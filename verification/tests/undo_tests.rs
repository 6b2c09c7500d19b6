use rdf_editor::models::RdfNode;
use rdf_editor::models::Triple;
use rdf_editor::RdfEditorError;
use rdf_editor::sparql::delete_triple_update;
use rdf_editor::transaction_log::TransactionLogger;
use rdf_editor::transaction_log::TransactionType;
use rdf_editor::transaction_log::get_recent_transactions;
use rdf_editor::undo::UndoAction;
use rdf_editor::undo::log_undo_action;
use rdf_editor::undo::plan_undo;

fn uri_triple(s: &str, p: &str, o: &str) -> Triple {
    Triple {
        subject: s.to_string(),
        predicate: p.to_string(),
        object: RdfNode::Uri { value: o.to_string() },
        graph: None,
    }
}

#[test]
fn undo_of_add_issues_delete_and_logs_forward_record() {
    let mut logger = TransactionLogger::new();
    let graph = "g".to_string();
    let triple = uri_triple("http://s", "http://p", "http://o");

    // Log the original addition; in immediate mode the line is durable
    // once the caller appends it.
    let (id, line) = logger.log_add_triple(Some(&graph), &triple, None);
    let mut log_text = line.unwrap();

    // Find the record among the recent entries and derive the inverse.
    let entries = get_recent_transactions(&log_text, 100);
    let action = plan_undo(&entries, &id).expect("a fresh addition must be undoable");
    match &action {
        UndoAction::DeleteFromGraph { triple: t, graph: g } => {
            assert_eq!(t, &triple);
            assert_eq!(g.as_deref(), Some("g"));
            // The inverse applied to the store is a DELETE DATA of the
            // same triple in the recorded graph.
            let update = delete_triple_update(t, g.as_deref().unwrap());
            assert_eq!(
                update,
                "DELETE DATA { GRAPH <g> { <http://s> <http://p> <http://o> } }"
            );
        }
        other => panic!("expected a delete, got {:?}", other),
    }

    // The undo is itself logged as a new forward record.
    let (undo_id, undo_line) = log_undo_action(&mut logger, &action);
    log_text.push_str(&undo_line.unwrap());

    let entries = get_recent_transactions(&log_text, 100);
    assert_eq!(entries.len(), 2);
    // Most recent first: the forward record of the undo.
    assert_eq!(entries[0].record.id, undo_id);
    assert_eq!(entries[0].record.transaction_type, TransactionType::DeleteTriple);
    assert_eq!(entries[0].record.old_data, Some(vec![triple.clone()]));
    // The original record is still present and unchanged.
    assert_eq!(entries[1].record.id, id);
    assert_eq!(entries[1].record.transaction_type, TransactionType::AddTriple);
    assert_eq!(entries[1].record.new_data, Some(vec![triple]));
}

#[test]
fn undo_of_delete_readds_the_triple() {
    let mut logger = TransactionLogger::new();
    let triple = uri_triple("http://s", "http://p", "http://o");
    let (id, line) = logger.log_delete_triple(None, &triple, None);
    let entries = get_recent_transactions(&line.unwrap(), 100);
    match plan_undo(&entries, &id).unwrap() {
        UndoAction::AddToGraph { triple: t, graph } => {
            assert_eq!(t, triple);
            assert_eq!(graph, None);
        }
        other => panic!("expected an add, got {:?}", other),
    }
}

#[test]
fn undo_of_replace_swaps_back() {
    let mut logger = TransactionLogger::new();
    let graph = "g".to_string();
    let old_t = uri_triple("http://s", "http://p", "http://old");
    let new_t = uri_triple("http://s", "http://p", "http://new");
    let (id, line) = logger.log_replace_triple(Some(&graph), &old_t, &new_t, None);
    let entries = get_recent_transactions(&line.unwrap(), 100);
    match plan_undo(&entries, &id).unwrap() {
        UndoAction::ReplaceInGraph { from, to, graph } => {
            assert_eq!(from, new_t);
            assert_eq!(to, old_t);
            assert_eq!(graph.as_deref(), Some("g"));
        }
        other => panic!("expected a replace, got {:?}", other),
    }
}

#[test]
fn graph_named_default_maps_to_default_graph() {
    let mut logger = TransactionLogger::new();
    let graph = "default".to_string();
    let triple = uri_triple("http://s", "http://p", "http://o");
    let (id, line) = logger.log_add_triple(Some(&graph), &triple, None);
    let entries = get_recent_transactions(&line.unwrap(), 100);
    match plan_undo(&entries, &id).unwrap() {
        UndoAction::DeleteFromGraph { graph, .. } => assert_eq!(graph, None),
        other => panic!("expected a delete, got {:?}", other),
    }
}

#[test]
fn unknown_id_is_not_found() {
    let mut logger = TransactionLogger::new();
    let triple = uri_triple("http://s", "http://p", "http://o");
    let (_, line) = logger.log_add_triple(None, &triple, None);
    let entries = get_recent_transactions(&line.unwrap(), 100);
    match plan_undo(&entries, &"no-such-id".to_string()) {
        Err(RdfEditorError::NotFound(_)) => {}
        other => panic!("expected not-found, got {:?}", other),
    }
}

#[test]
fn batch_operations_cannot_be_undone() {
    let mut logger = TransactionLogger::new();
    let triples = vec![uri_triple("http://s", "http://p", "http://o")];
    let graph = "g".to_string();
    let desc = "Added 1 triples in batch".to_string();
    let (id, line) = logger.log_batch_operation(
        TransactionType::AddTriplesBatch,
        Some(&graph),
        None,
        Some(&triples),
        &desc,
        None,
    );
    let entries = get_recent_transactions(&line.unwrap(), 100);
    assert!(!entries[0].can_undo);
    match plan_undo(&entries, &id) {
        Err(RdfEditorError::UnsupportedOperation(_)) => {}
        other => panic!("expected unsupported-operation, got {:?}", other),
    }
}
