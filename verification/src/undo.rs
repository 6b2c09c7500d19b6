//! The undo engine: derives the inverse of a past single-triple mutation
//! from a retrieved log record, and describes the forward record that
//! logging the inverse appends. An undo never shrinks the log.

use vstd::prelude::*;
use crate::error::RdfEditorError;
use crate::models::Triple;
use crate::text::str_eq;
use crate::transaction_log::TransactionLogEntry;
use crate::transaction_log::TransactionLogger;
use crate::transaction_log::TransactionRecordView;
use crate::transaction_log::TransactionType;
use crate::transaction_log::spec_add_record;
use crate::transaction_log::spec_delete_record;
use crate::transaction_log::spec_logged;
use crate::transaction_log::spec_replace_record;
use vstd::string::StringExecFns;

verus! {

/// The inverse mutation to apply through the remote-store client. A graph
/// of `None` means the default graph.
#[derive(Debug, Clone)]
pub enum UndoAction {
    /// Delete `triple` from `graph`: the inverse of an addition.
    DeleteFromGraph { triple: Triple, graph: Option<String> },
    /// Add `triple` to `graph`: the inverse of a deletion.
    AddToGraph { triple: Triple, graph: Option<String> },
    /// Replace `from` back by `to` in `graph`: the inverse of a
    /// replacement that installed `from` over `to`.
    ReplaceInGraph { from: Triple, to: Triple, graph: Option<String> },
}

/// The abstraction of an optional owned string.
pub open spec fn spec_opt_string_view(s: Option<String>) -> Option<Seq<char>> {
    match s {
        Some(t) => Some(t@),
        None => None,
    }
}

/// The graph an inverse is applied against: the recorded graph, where the
/// absent graph and the name `default` both mean the default graph.
pub open spec fn spec_effective_graph(g: Option<Seq<char>>) -> Option<Seq<char>> {
    match g {
        None => None,
        Some(name) => if name == "default"@ {
            None
        } else {
            Some(name)
        },
    }
}

/// The index of the first entry whose record has the given id, or the
/// length if there is none.
pub open spec fn spec_find_index(s: Seq<TransactionLogEntry>, id: Seq<char>) -> int
    decreases s.len(),
{
    if s.len() == 0 {
        0
    } else if s[0].record.id@ == id {
        0
    } else {
        1 + spec_find_index(s.drop_first(), id)
    }
}

proof fn lemma_find_index(s: Seq<TransactionLogEntry>, id: Seq<char>)
    ensures
        0 <= spec_find_index(s, id) <= s.len(),
        forall|j: int| 0 <= j < spec_find_index(s, id) ==> (#[trigger] s[j]).record.id@ != id,
        spec_find_index(s, id) < s.len() ==> s[spec_find_index(s, id)].record.id@ == id,
    decreases s.len(),
{
    if s.len() == 0 {
    } else if s[0].record.id@ == id {
    } else {
        lemma_find_index(s.drop_first(), id);
        assert forall|j: int| 0 <= j < spec_find_index(s, id) implies (#[trigger] s[j]).record.id@
            != id by {
            if j > 0 {
                assert(s.drop_first()[j - 1] == s[j]);
            }
        }
        if spec_find_index(s, id) < s.len() {
            assert(s.drop_first()[spec_find_index(s, id) - 1] == s[spec_find_index(s, id)]);
        }
    }
}

/// What `plan_undo` must decide for the entry it found, per the recorded
/// transaction type: the exact inverse action, or the error.
pub open spec fn spec_undo_decision(
    e: TransactionLogEntry,
    r: Result<UndoAction, RdfEditorError>,
) -> bool {
    if !e.can_undo {
        r matches Err(err) && err is UnsupportedOperation
    } else {
        match e.record.transaction_type {
            TransactionType::AddTriple => match e.record.new_data {
                Some(v) => if v.len() > 0 {
                    r matches Ok(a) && a matches UndoAction::DeleteFromGraph { triple, graph }
                        && triple@ == v[0]@ && spec_opt_string_view(graph) == spec_effective_graph(
                        spec_opt_string_view(e.record.graph),
                    )
                } else {
                    r matches Err(err) && err is UnsupportedOperation
                },
                None => r matches Err(err) && err is UnsupportedOperation,
            },
            TransactionType::DeleteTriple => match e.record.old_data {
                Some(v) => if v.len() > 0 {
                    r matches Ok(a) && a matches UndoAction::AddToGraph { triple, graph }
                        && triple@ == v[0]@ && spec_opt_string_view(graph) == spec_effective_graph(
                        spec_opt_string_view(e.record.graph),
                    )
                } else {
                    r matches Err(err) && err is UnsupportedOperation
                },
                None => r matches Err(err) && err is UnsupportedOperation,
            },
            TransactionType::ReplaceTriple => match (e.record.old_data, e.record.new_data) {
                (Some(ov), Some(nv)) => if ov.len() > 0 && nv.len() > 0 {
                    r matches Ok(a) && a matches UndoAction::ReplaceInGraph { from, to, graph }
                        && from@ == nv[0]@ && to@ == ov[0]@ && spec_opt_string_view(graph)
                        == spec_effective_graph(spec_opt_string_view(e.record.graph))
                } else {
                    r matches Err(err) && err is UnsupportedOperation
                },
                _ => r matches Err(err) && err is UnsupportedOperation,
            },
            _ => r matches Err(err) && err is UnsupportedOperation,
        }
    }
}

/// Looks the transaction up among the given recent entries and derives
/// the inverse mutation to apply: a not-found error if no entry carries
/// the id, an unsupported-operation error if the entry cannot be undone
/// or lacks the recorded data its inverse needs, and otherwise the exact
/// inverse of the recorded mutation, against the recorded graph or the
/// default graph if none was recorded.
pub fn plan_undo(entries: &Vec<TransactionLogEntry>, transaction_id: &String) -> (r: Result<
    UndoAction,
    RdfEditorError,
>)
    ensures
        ({
            let idx = spec_find_index(entries@, transaction_id@);
            &&& idx == entries@.len() ==> (r matches Err(err) && err is NotFound)
            &&& idx < entries@.len() ==> spec_undo_decision(entries@[idx], r)
        }),
{
    proof {
        lemma_find_index(entries@, transaction_id@);
    }
    let n = entries.len();
    let mut i: usize = 0;
    while i < n && !entries[i].record.id.eq(transaction_id)
        invariant
            0 <= i <= n,
            n == entries@.len(),
            forall|j: int| 0 <= j < i ==> (#[trigger] entries@[j]).record.id@ != transaction_id@,
        decreases n - i,
    {
        i = i + 1;
    }
    proof {
        assert(i == spec_find_index(entries@, transaction_id@)) by {
            lemma_find_index(entries@, transaction_id@);
            if i < spec_find_index(entries@, transaction_id@) {
                assert(entries@[i as int].record.id@ == transaction_id@);
            }
            if i > spec_find_index(entries@, transaction_id@) {
                assert(entries@[spec_find_index(entries@, transaction_id@)].record.id@
                    == transaction_id@);
            }
        }
    }
    if i == n {
        let mut msg: Vec<char> = Vec::new();
        crate::text::push_chars(&mut msg, "Transaction not found: ");
        let idc = crate::text::chars_of(transaction_id.as_str());
        let mut idc = idc;
        msg.append(&mut idc);
        return Err(RdfEditorError::NotFound(crate::text::string_from_chars(&msg)));
    }
    let entry = &entries[i];
    if !entry.can_undo {
        return Err(RdfEditorError::UnsupportedOperation(String::from_str(
            "This transaction type cannot be undone automatically",
        )));
    }
    let graph: Option<String> = match &entry.record.graph {
        Some(g) => {
            if str_eq(g.as_str(), "default") {
                None
            } else {
                Some(g.clone())
            }
        },
        None => None,
    };
    match entry.record.transaction_type {
        TransactionType::AddTriple => {
            match &entry.record.new_data {
                Some(v) => {
                    if v.len() > 0 {
                        Ok(UndoAction::DeleteFromGraph { triple: v[0].duplicate(), graph })
                    } else {
                        Err(RdfEditorError::UnsupportedOperation(String::from_str(
                            "Recorded transaction lacks the data its undo needs",
                        )))
                    }
                },
                None => Err(RdfEditorError::UnsupportedOperation(String::from_str(
                    "Recorded transaction lacks the data its undo needs",
                ))),
            }
        },
        TransactionType::DeleteTriple => {
            match &entry.record.old_data {
                Some(v) => {
                    if v.len() > 0 {
                        Ok(UndoAction::AddToGraph { triple: v[0].duplicate(), graph })
                    } else {
                        Err(RdfEditorError::UnsupportedOperation(String::from_str(
                            "Recorded transaction lacks the data its undo needs",
                        )))
                    }
                },
                None => Err(RdfEditorError::UnsupportedOperation(String::from_str(
                    "Recorded transaction lacks the data its undo needs",
                ))),
            }
        },
        TransactionType::ReplaceTriple => {
            match (&entry.record.old_data, &entry.record.new_data) {
                (Some(ov), Some(nv)) => {
                    if ov.len() > 0 && nv.len() > 0 {
                        Ok(
                            UndoAction::ReplaceInGraph {
                                from: nv[0].duplicate(),
                                to: ov[0].duplicate(),
                                graph,
                            },
                        )
                    } else {
                        Err(RdfEditorError::UnsupportedOperation(String::from_str(
                            "Recorded transaction lacks the data its undo needs",
                        )))
                    }
                },
                _ => Err(RdfEditorError::UnsupportedOperation(String::from_str(
                    "Recorded transaction lacks the data its undo needs",
                ))),
            }
        },
        _ => Err(RdfEditorError::UnsupportedOperation(String::from_str(
            "Undo not implemented for this transaction type",
        ))),
    }
}

/// The forward record that logging an undo action appends: the inverse
/// mutation recorded as a new transaction of its natural type.
pub open spec fn spec_undo_record(a: UndoAction, ts: u64, id: Seq<char>) -> TransactionRecordView {
    match a {
        UndoAction::DeleteFromGraph { triple, graph } => spec_delete_record(
            id,
            ts,
            spec_opt_string_view(graph),
            triple@,
            None,
        ),
        UndoAction::AddToGraph { triple, graph } => spec_add_record(
            id,
            ts,
            spec_opt_string_view(graph),
            triple@,
            None,
        ),
        UndoAction::ReplaceInGraph { from, to, graph } => spec_replace_record(
            id,
            ts,
            spec_opt_string_view(graph),
            from@,
            to@,
            None,
        ),
    }
}

/// Logs the applied undo action as a new forward transaction: the undo is
/// recorded, never erased from the log. The caller appends the returned
/// line as for any other `log_*` call.
pub fn log_undo_action(logger: &mut TransactionLogger, action: &UndoAction) -> (r: (
    String,
    Option<String>,
))
    ensures
        exists|ts: u64|
            spec_logged(*old(logger), *final(logger), r, #[trigger] spec_undo_record(
                *action,
                ts,
                r.0@,
            )),
{
    match action {
        UndoAction::DeleteFromGraph { triple, graph } => {
            let g: Option<&String> = match graph {
                Some(s) => Some(s),
                None => None,
            };
            let r = logger.log_delete_triple(g, triple, None);
            proof {
                let ts = choose|ts: u64|
                    spec_logged(*old(logger), *logger, r, #[trigger] spec_delete_record(
                        r.0@,
                        ts,
                        crate::transaction_log::spec_opt_view(g),
                        triple@,
                        crate::transaction_log::spec_opt_view(None::<&String>),
                    ));
                assert(spec_logged(*old(logger), *logger, r, spec_undo_record(*action, ts, r.0@)));
            }
            r
        },
        UndoAction::AddToGraph { triple, graph } => {
            let g: Option<&String> = match graph {
                Some(s) => Some(s),
                None => None,
            };
            let r = logger.log_add_triple(g, triple, None);
            proof {
                let ts = choose|ts: u64|
                    spec_logged(*old(logger), *logger, r, #[trigger] spec_add_record(
                        r.0@,
                        ts,
                        crate::transaction_log::spec_opt_view(g),
                        triple@,
                        crate::transaction_log::spec_opt_view(None::<&String>),
                    ));
                assert(spec_logged(*old(logger), *logger, r, spec_undo_record(*action, ts, r.0@)));
            }
            r
        },
        UndoAction::ReplaceInGraph { from, to, graph } => {
            let g: Option<&String> = match graph {
                Some(s) => Some(s),
                None => None,
            };
            let r = logger.log_replace_triple(g, from, to, None);
            proof {
                let ts = choose|ts: u64|
                    spec_logged(*old(logger), *logger, r, #[trigger] spec_replace_record(
                        r.0@,
                        ts,
                        crate::transaction_log::spec_opt_view(g),
                        from@,
                        to@,
                        crate::transaction_log::spec_opt_view(None::<&String>),
                    ));
                assert(spec_logged(*old(logger), *logger, r, spec_undo_record(*action, ts, r.0@)));
            }
            r
        },
    }
}

} // verus!
