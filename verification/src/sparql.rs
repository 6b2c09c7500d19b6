//! Construction of the SPARQL texts the editor sends, and the pure
//! classification helpers of the graph view. Sending a text to the remote
//! store is the caller's part; everything here is a function from plain
//! values to the exact text.

use vstd::prelude::*;
use sha2::Digest;
use vstd::string::StrSliceExecFns;
use crate::error::RdfEditorError;
use crate::models::NodeType;
use crate::models::Triple;
use crate::models::TripleView;
use crate::models::spec_sparql_pattern;
use crate::models::spec_triple_views;
use crate::text::chars_of;
use crate::text::push_chars;
use crate::text::push_u64_dec;
use crate::text::spec_dec_digits;
use crate::text::str_eq;
use crate::text::string_from_chars;
use crate::text::split_lines;
use crate::text::spec_split_lines;
use crate::config::spec_trim;
use crate::config::trim_chars;

verus! {

/// Maps the path name of a graph to the optional graph of the data
/// model: the name `default` denotes the default graph.
pub fn normalize_graph_name(name: &String) -> (r: Option<String>)
    ensures
        match r {
            None => name@ == "default"@,
            Some(g) => g@ == name@ && name@ != "default"@,
        },
{
    if str_eq(name.as_str(), "default") {
        None
    } else {
        Some(name.clone())
    }
}

/// The text inserting one triple into a named graph.
pub open spec fn spec_add_triple_update(t: TripleView, graph: Seq<char>) -> Seq<char> {
    "INSERT DATA { GRAPH <"@ + graph + "> { "@ + spec_sparql_pattern(t) + " } }"@
}

/// The text inserting one triple into the default graph.
pub open spec fn spec_add_triple_default_update(t: TripleView) -> Seq<char> {
    "INSERT DATA { "@ + spec_sparql_pattern(t) + " }"@
}

/// The text deleting one triple from a named graph.
pub open spec fn spec_delete_triple_update(t: TripleView, graph: Seq<char>) -> Seq<char> {
    "DELETE DATA { GRAPH <"@ + graph + "> { "@ + spec_sparql_pattern(t) + " } }"@
}

/// The text deleting one triple from the default graph.
pub open spec fn spec_delete_triple_default_update(t: TripleView) -> Seq<char> {
    "DELETE DATA { "@ + spec_sparql_pattern(t) + " }"@
}

/// The text replacing one triple by another in a named graph.
pub open spec fn spec_replace_triple_update(
    old_t: TripleView,
    new_t: TripleView,
    graph: Seq<char>,
) -> Seq<char> {
    "DELETE { GRAPH <"@ + graph + "> { "@ + spec_sparql_pattern(old_t) + " } } INSERT { GRAPH <"@
        + graph + "> { "@ + spec_sparql_pattern(new_t) + " } } WHERE { GRAPH <"@ + graph + "> { "@
        + spec_sparql_pattern(old_t) + " } }"@
}

/// The text replacing one triple by another in the default graph.
pub open spec fn spec_replace_triple_default_update(old_t: TripleView, new_t: TripleView) -> Seq<
    char,
> {
    "DELETE { "@ + spec_sparql_pattern(old_t) + " } INSERT { "@ + spec_sparql_pattern(new_t)
        + " } WHERE { "@ + spec_sparql_pattern(old_t) + " }"@
}

/// Builds `spec_add_triple_update`.
pub fn add_triple_update(triple: &Triple, graph: &str) -> (r: String)
    ensures
        r@ == spec_add_triple_update(triple@, graph@),
{
    let mut out: Vec<char> = Vec::new();
    push_chars(&mut out, "INSERT DATA { GRAPH <");
    push_chars(&mut out, graph);
    push_chars(&mut out, "> { ");
    triple.push_sparql_pattern(&mut out);
    push_chars(&mut out, " } }");
    proof {
        assert(out@ =~= spec_add_triple_update(triple@, graph@));
    }
    string_from_chars(&out)
}

/// Builds `spec_add_triple_default_update`.
pub fn add_triple_to_default_update(triple: &Triple) -> (r: String)
    ensures
        r@ == spec_add_triple_default_update(triple@),
{
    let mut out: Vec<char> = Vec::new();
    push_chars(&mut out, "INSERT DATA { ");
    triple.push_sparql_pattern(&mut out);
    push_chars(&mut out, " }");
    proof {
        assert(out@ =~= spec_add_triple_default_update(triple@));
    }
    string_from_chars(&out)
}

/// Builds `spec_delete_triple_update`.
pub fn delete_triple_update(triple: &Triple, graph: &str) -> (r: String)
    ensures
        r@ == spec_delete_triple_update(triple@, graph@),
{
    let mut out: Vec<char> = Vec::new();
    push_chars(&mut out, "DELETE DATA { GRAPH <");
    push_chars(&mut out, graph);
    push_chars(&mut out, "> { ");
    triple.push_sparql_pattern(&mut out);
    push_chars(&mut out, " } }");
    proof {
        assert(out@ =~= spec_delete_triple_update(triple@, graph@));
    }
    string_from_chars(&out)
}

/// Builds `spec_delete_triple_default_update`.
pub fn delete_triple_from_default_update(triple: &Triple) -> (r: String)
    ensures
        r@ == spec_delete_triple_default_update(triple@),
{
    let mut out: Vec<char> = Vec::new();
    push_chars(&mut out, "DELETE DATA { ");
    triple.push_sparql_pattern(&mut out);
    push_chars(&mut out, " }");
    proof {
        assert(out@ =~= spec_delete_triple_default_update(triple@));
    }
    string_from_chars(&out)
}

/// Builds `spec_replace_triple_update`.
pub fn replace_triple_update(old_triple: &Triple, new_triple: &Triple, graph: &str) -> (r: String)
    ensures
        r@ == spec_replace_triple_update(old_triple@, new_triple@, graph@),
{
    let mut out: Vec<char> = Vec::new();
    push_chars(&mut out, "DELETE { GRAPH <");
    push_chars(&mut out, graph);
    push_chars(&mut out, "> { ");
    old_triple.push_sparql_pattern(&mut out);
    push_chars(&mut out, " } } INSERT { GRAPH <");
    push_chars(&mut out, graph);
    push_chars(&mut out, "> { ");
    new_triple.push_sparql_pattern(&mut out);
    push_chars(&mut out, " } } WHERE { GRAPH <");
    push_chars(&mut out, graph);
    push_chars(&mut out, "> { ");
    old_triple.push_sparql_pattern(&mut out);
    push_chars(&mut out, " } }");
    proof {
        assert(out@ =~= spec_replace_triple_update(old_triple@, new_triple@, graph@));
    }
    string_from_chars(&out)
}

/// Builds `spec_replace_triple_default_update`.
pub fn replace_triple_in_default_update(old_triple: &Triple, new_triple: &Triple) -> (r: String)
    ensures
        r@ == spec_replace_triple_default_update(old_triple@, new_triple@),
{
    let mut out: Vec<char> = Vec::new();
    push_chars(&mut out, "DELETE { ");
    old_triple.push_sparql_pattern(&mut out);
    push_chars(&mut out, " } INSERT { ");
    new_triple.push_sparql_pattern(&mut out);
    push_chars(&mut out, " } WHERE { ");
    old_triple.push_sparql_pattern(&mut out);
    push_chars(&mut out, " }");
    proof {
        assert(out@ =~= spec_replace_triple_default_update(old_triple@, new_triple@));
    }
    string_from_chars(&out)
}

/// The space-separated patterns of the triples from index `i` on.
pub open spec fn spec_batch_patterns(ts: Seq<TripleView>, i: int) -> Seq<char>
    decreases ts.len() - i,
{
    if i < 0 || i >= ts.len() {
        Seq::empty()
    } else {
        seq![' '] + spec_sparql_pattern(ts[i]) + spec_batch_patterns(ts, i + 1)
    }
}

/// The text inserting a batch of triples into a named graph.
pub open spec fn spec_add_batch_update(ts: Seq<TripleView>, graph: Seq<char>) -> Seq<char> {
    "INSERT DATA { GRAPH <"@ + graph + "> {"@ + spec_batch_patterns(ts, 0) + " } }"@
}

/// The text deleting a batch of triples from a named graph.
pub open spec fn spec_delete_batch_update(ts: Seq<TripleView>, graph: Seq<char>) -> Seq<char> {
    "DELETE DATA { GRAPH <"@ + graph + "> {"@ + spec_batch_patterns(ts, 0) + " } }"@
}

fn push_batch_patterns(out: &mut Vec<char>, triples: &Vec<Triple>)
    ensures
        final(out)@ == old(out)@ + spec_batch_patterns(spec_triple_views(triples@), 0),
{
    let ghost views = spec_triple_views(triples@);
    let mut i: usize = 0;
    while i < triples.len()
        invariant
            0 <= i <= triples@.len(),
            views == spec_triple_views(triples@),
            out@ + spec_batch_patterns(views, i as int) =~= old(out)@ + spec_batch_patterns(
                views,
                0,
            ),
        decreases triples@.len() - i,
    {
        let ghost pre = out@;
        out.push(' ');
        triples[i].push_sparql_pattern(out);
        proof {
            assert(views[i as int] == triples@[i as int]@);
            assert(out@ =~= pre + (seq![' '] + spec_sparql_pattern(views[i as int])));
            assert(out@ + spec_batch_patterns(views, i + 1) =~= pre + spec_batch_patterns(
                views,
                i as int,
            ));
        }
        i = i + 1;
    }
    proof {
        assert(spec_batch_patterns(views, triples@.len() as int) =~= Seq::<char>::empty());
        assert(out@ =~= out@ + Seq::<char>::empty());
    }
}

/// Builds `spec_add_batch_update`.
pub fn add_triples_batch_update(triples: &Vec<Triple>, graph: &str) -> (r: String)
    ensures
        r@ == spec_add_batch_update(spec_triple_views(triples@), graph@),
{
    let mut out: Vec<char> = Vec::new();
    push_chars(&mut out, "INSERT DATA { GRAPH <");
    push_chars(&mut out, graph);
    push_chars(&mut out, "> {");
    push_batch_patterns(&mut out, triples);
    push_chars(&mut out, " } }");
    proof {
        assert(out@ =~= spec_add_batch_update(spec_triple_views(triples@), graph@));
    }
    string_from_chars(&out)
}

/// Builds `spec_delete_batch_update`.
pub fn delete_triples_batch_update(triples: &Vec<Triple>, graph: &str) -> (r: String)
    ensures
        r@ == spec_delete_batch_update(spec_triple_views(triples@), graph@),
{
    let mut out: Vec<char> = Vec::new();
    push_chars(&mut out, "DELETE DATA { GRAPH <");
    push_chars(&mut out, graph);
    push_chars(&mut out, "> {");
    push_batch_patterns(&mut out, triples);
    push_chars(&mut out, " } }");
    proof {
        assert(out@ =~= spec_delete_batch_update(spec_triple_views(triples@), graph@));
    }
    string_from_chars(&out)
}

/// The index of the first listed triple naming a graph other than the
/// target, or the length if every listed graph matches.
pub open spec fn spec_first_mismatch(ts: Seq<Triple>, graph: Seq<char>) -> int
    decreases ts.len(),
{
    if ts.len() == 0 {
        0
    } else if match ts[0].graph {
        Some(g) => g@ != graph,
        None => false,
    } {
        0
    } else {
        1 + spec_first_mismatch(ts.drop_first(), graph)
    }
}

proof fn lemma_first_mismatch(ts: Seq<Triple>, graph: Seq<char>)
    ensures
        0 <= spec_first_mismatch(ts, graph) <= ts.len(),
        forall|j: int|
            0 <= j < spec_first_mismatch(ts, graph) ==> match (#[trigger] ts[j]).graph {
                Some(g) => g@ == graph,
                None => true,
            },
        spec_first_mismatch(ts, graph) < ts.len() ==> match ts[spec_first_mismatch(
            ts,
            graph,
        )].graph {
            Some(g) => g@ != graph,
            None => false,
        },
    decreases ts.len(),
{
    if ts.len() == 0 {
    } else if match ts[0].graph {
        Some(g) => g@ != graph,
        None => false,
    } {
    } else {
        lemma_first_mismatch(ts.drop_first(), graph);
        assert forall|j: int| 0 <= j < spec_first_mismatch(ts, graph) implies match (
        #[trigger] ts[j]).graph {
            Some(g) => g@ == graph,
            None => true,
        } by {
            if j > 0 {
                assert(ts.drop_first()[j - 1] == ts[j]);
            }
        }
        if spec_first_mismatch(ts, graph) < ts.len() {
            assert(ts.drop_first()[spec_first_mismatch(ts, graph) - 1] == ts[spec_first_mismatch(
                ts,
                graph,
            )]);
        }
    }
}

/// Checks that every triple of a batch that names a graph names the
/// target graph; returns the first offending graph name, if any.
pub fn find_graph_mismatch(triples: &Vec<Triple>, graph: &String) -> (r: Option<String>)
    ensures
        ({
            let idx = spec_first_mismatch(triples@, graph@);
            &&& idx == triples@.len() ==> r is None
            &&& idx < triples@.len() ==> (r matches Some(g) && triples@[idx].graph matches Some(tg)
                && g@ == tg@)
        }),
{
    proof {
        lemma_first_mismatch(triples@, graph@);
    }
    let n = triples.len();
    let mut i: usize = 0;
    while i < n
        invariant
            0 <= i <= n,
            n == triples@.len(),
            forall|j: int|
                0 <= j < i ==> match (#[trigger] triples@[j]).graph {
                    Some(g) => g@ == graph@,
                    None => true,
                },
        decreases n - i,
    {
        match &triples[i].graph {
            Some(g) => {
                if !str_eq(g.as_str(), graph.as_str()) {
                    proof {
                        lemma_first_mismatch(triples@, graph@);
                        assert(i == spec_first_mismatch(triples@, graph@)) by {
                            if i > spec_first_mismatch(triples@, graph@) {
                                assert(match triples@[spec_first_mismatch(
                                    triples@,
                                    graph@,
                                )].graph {
                                    Some(gg) => gg@ != graph@,
                                    None => false,
                                });
                            }
                        }
                    }
                    return Some(g.clone());
                }
            },
            None => {},
        }
        i = i + 1;
    }
    proof {
        lemma_first_mismatch(triples@, graph@);
        assert(spec_first_mismatch(triples@, graph@) == triples@.len()) by {
            if spec_first_mismatch(triples@, graph@) < triples@.len() {
                assert(match triples@[spec_first_mismatch(triples@, graph@)].graph {
                    Some(gg) => gg@ != graph@,
                    None => false,
                });
            }
        }
    }
    None
}

/// A subject and predicate that must not change during a replacement:
/// the replacement is rejected if either differs.
pub fn check_replace_compatible(old_triple: &Triple, new_triple: &Triple) -> (r: Result<
    (),
    RdfEditorError,
>)
    ensures
        r is Ok <==> old_triple.subject@ == new_triple.subject@ && old_triple.predicate@
            == new_triple.predicate@,
        r matches Err(e) ==> e is InvalidInput,
{
    if !str_eq(old_triple.subject.as_str(), new_triple.subject.as_str()) || !str_eq(
        old_triple.predicate.as_str(),
        new_triple.predicate.as_str(),
    ) {
        return Err(RdfEditorError::InvalidInput(
            crate::text::string_from_chars(
                &chars_of(
                    "Cannot change subject or predicate during replace. Delete and add new triple instead.",
                ),
            ),
        ));
    }
    Ok(())
}

/// The N-Triples export of the triples from index `i` on: each pattern
/// followed by a dot and a newline.
pub open spec fn spec_export_lines(ts: Seq<TripleView>, i: int) -> Seq<char>
    decreases ts.len() - i,
{
    if i < 0 || i >= ts.len() {
        Seq::empty()
    } else {
        spec_sparql_pattern(ts[i]) + " .\n"@ + spec_export_lines(ts, i + 1)
    }
}

/// Serializes triples as N-Triples text, one statement per line.
pub fn export_ntriples(triples: &Vec<Triple>) -> (r: String)
    ensures
        r@ == spec_export_lines(spec_triple_views(triples@), 0),
{
    let ghost views = spec_triple_views(triples@);
    let mut out: Vec<char> = Vec::new();
    let mut i: usize = 0;
    while i < triples.len()
        invariant
            0 <= i <= triples@.len(),
            views == spec_triple_views(triples@),
            out@ + spec_export_lines(views, i as int) =~= spec_export_lines(views, 0),
        decreases triples@.len() - i,
    {
        let ghost pre = out@;
        triples[i].push_sparql_pattern(&mut out);
        push_chars(&mut out, " .\n");
        proof {
            assert(views[i as int] == triples@[i as int]@);
            assert(out@ =~= pre + (spec_sparql_pattern(views[i as int]) + " .\n"@));
            assert(out@ + spec_export_lines(views, i + 1) =~= pre + spec_export_lines(
                views,
                i as int,
            ));
        }
        i = i + 1;
    }
    proof {
        assert(spec_export_lines(views, triples@.len() as int) =~= Seq::<char>::empty());
        assert(out@ =~= out@ + Seq::<char>::empty());
    }
    string_from_chars(&out)
}

/// Whether an import line carries a statement: non-empty after trimming
/// and not a comment.
pub open spec fn spec_import_line_kept(l: Seq<char>) -> bool {
    spec_trim(l).len() > 0 && spec_trim(l)[0] != '#'
}

/// The statement text an import line contributes: a space, the trimmed
/// line, and a closing dot if the line does not already end in one.
pub open spec fn spec_import_statement(l: Seq<char>) -> Seq<char> {
    let t = spec_trim(l);
    if t.len() > 0 && t.last() == '.' {
        seq![' '] + t
    } else {
        seq![' '] + t + " ."@
    }
}

/// The statements of the kept import lines from index `i` on.
pub open spec fn spec_import_statements(lines: Seq<Seq<char>>, i: int) -> Seq<char>
    decreases lines.len() - i,
{
    if i < 0 || i >= lines.len() {
        Seq::empty()
    } else {
        (if spec_import_line_kept(lines[i]) {
            spec_import_statement(lines[i])
        } else {
            Seq::empty()
        }) + spec_import_statements(lines, i + 1)
    }
}

/// The number of kept import lines from index `i` on.
pub open spec fn spec_import_count(lines: Seq<Seq<char>>, i: int) -> int
    decreases lines.len() - i,
{
    if i < 0 || i >= lines.len() {
        0
    } else {
        (if spec_import_line_kept(lines[i]) {
            1int
        } else {
            0int
        }) + spec_import_count(lines, i + 1)
    }
}

/// Builds the insert for an N-Triples import into a named graph: each
/// non-empty, non-comment line becomes one statement. Fails when no line
/// carries a statement. Returns the update text and the statement count.
pub fn build_import_update(data: &str, graph: &str) -> (r: Result<(String, usize), RdfEditorError>)
    ensures
        ({
            let lines = spec_split_lines(data@);
            &&& r is Ok <==> spec_import_count(lines, 0) > 0
            &&& r matches Ok(p) ==> p.1 == spec_import_count(lines, 0) && p.0@ == "INSERT DATA { GRAPH <"@
                + graph@ + "> {"@ + spec_import_statements(lines, 0) + " } }"@
            &&& r matches Err(e) ==> e is InvalidInput
        }),
{
    let chars = chars_of(data);
    let lines = split_lines(&chars);
    let ghost line_views = lines@.map_values(|l: Vec<char>| l@);
    let mut body: Vec<char> = Vec::new();
    let mut count: usize = 0;
    let mut i: usize = 0;
    while i < lines.len()
        invariant
            0 <= i <= lines@.len(),
            line_views == lines@.map_values(|l: Vec<char>| l@),
            body@ + spec_import_statements(line_views, i as int) =~= spec_import_statements(
                line_views,
                0,
            ),
            count + spec_import_count(line_views, i as int) == spec_import_count(line_views, 0),
            count <= i,
        decreases lines@.len() - i,
    {
        let ghost pre = body@;
        proof {
            assert(line_views[i as int] == lines@[i as int]@);
        }
        let t = trim_chars(&lines[i]);
        if t.len() > 0 && t[0] != '#' {
            body.push(' ');
            let mut tc = t;
            let ends_dot = tc[tc.len() - 1] == '.';
            body.append(&mut tc);
            if !ends_dot {
                push_chars(&mut body, " .");
            }
            count = count + 1;
            proof {
                assert(body@ =~= pre + spec_import_statement(line_views[i as int]));
                assert(body@ + spec_import_statements(line_views, i + 1) =~= pre
                    + spec_import_statements(line_views, i as int));
            }
        } else {
            proof {
                assert(Seq::<char>::empty() + spec_import_statements(line_views, i + 1)
                    =~= spec_import_statements(line_views, i + 1));
            }
        }
        i = i + 1;
    }
    proof {
        assert(spec_import_statements(line_views, lines@.len() as int) =~= Seq::<char>::empty());
        assert(body@ + Seq::<char>::empty() =~= body@);
        assert(spec_import_count(line_views, lines@.len() as int) == 0);
    }
    if count == 0 {
        return Err(RdfEditorError::InvalidInput(
            crate::text::string_from_chars(&chars_of("No valid triples found")),
        ));
    }
    let mut out: Vec<char> = Vec::new();
    push_chars(&mut out, "INSERT DATA { GRAPH <");
    push_chars(&mut out, graph);
    push_chars(&mut out, "> {");
    let mut body = body;
    out.append(&mut body);
    push_chars(&mut out, " } }");
    proof {
        assert(out@ =~= "INSERT DATA { GRAPH <"@ + graph@ + "> {"@ + spec_import_statements(
            line_views,
            0,
        ) + " } }"@);
    }
    Ok((string_from_chars(&out), count))
}

/// Whether a later page exists: the offset plus the rows returned still
/// lies short of the total.
pub fn has_more_results(total: usize, offset: usize, returned: usize) -> (r: bool)
    ensures
        r == (offset + returned < total),
{
    if returned >= total {
        false
    } else {
        offset < total - returned
    }
}

/// The update wrapped for execution against a named graph.
pub fn with_graph_update(update: &str, graph: &str) -> (r: String)
    ensures
        r@ == "WITH <"@ + graph@ + "> "@ + update@,
{
    let mut out: Vec<char> = Vec::new();
    push_chars(&mut out, "WITH <");
    push_chars(&mut out, graph);
    push_chars(&mut out, "> ");
    push_chars(&mut out, update);
    proof {
        assert(out@ =~= "WITH <"@ + graph@ + "> "@ + update@);
    }
    string_from_chars(&out)
}

/// The query listing triples of a graph, capped at a thousand rows.
pub fn triples_query(graph: Option<&String>) -> (r: String)
    ensures
        match graph {
            Some(g) => r@ == "SELECT ?s ?p ?o WHERE { GRAPH <"@ + g@ + "> { ?s ?p ?o } } LIMIT 1000"@,
            None => r@ == "SELECT ?s ?p ?o WHERE { ?s ?p ?o } LIMIT 1000"@,
        },
{
    match graph {
        Some(g) => {
            let mut out: Vec<char> = Vec::new();
            push_chars(&mut out, "SELECT ?s ?p ?o WHERE { GRAPH <");
            push_chars(&mut out, g.as_str());
            push_chars(&mut out, "> { ?s ?p ?o } } LIMIT 1000");
            proof {
                assert(out@ =~= "SELECT ?s ?p ?o WHERE { GRAPH <"@ + g@
                    + "> { ?s ?p ?o } } LIMIT 1000"@);
            }
            string_from_chars(&out)
        },
        None => {
            let out = chars_of("SELECT ?s ?p ?o WHERE { ?s ?p ?o } LIMIT 1000");
            string_from_chars(&out)
        },
    }
}

/// The query listing one page of triples of a graph.
pub fn triples_paginated_query(graph: Option<&String>, limit: u64, offset: u64) -> (r: String)
    ensures
        match graph {
            Some(g) => r@ == "SELECT ?s ?p ?o WHERE { GRAPH <"@ + g@ + "> { ?s ?p ?o } } LIMIT "@
                + spec_dec_digits(limit as nat) + " OFFSET "@ + spec_dec_digits(offset as nat),
            None => r@ == "SELECT ?s ?p ?o WHERE { ?s ?p ?o } LIMIT "@ + spec_dec_digits(
                limit as nat,
            ) + " OFFSET "@ + spec_dec_digits(offset as nat),
        },
{
    let mut out: Vec<char> = Vec::new();
    match graph {
        Some(g) => {
            push_chars(&mut out, "SELECT ?s ?p ?o WHERE { GRAPH <");
            push_chars(&mut out, g.as_str());
            push_chars(&mut out, "> { ?s ?p ?o } } LIMIT ");
            push_u64_dec(limit, &mut out);
            push_chars(&mut out, " OFFSET ");
            push_u64_dec(offset, &mut out);
            proof {
                assert(out@ =~= "SELECT ?s ?p ?o WHERE { GRAPH <"@ + g@
                    + "> { ?s ?p ?o } } LIMIT "@ + spec_dec_digits(limit as nat) + " OFFSET "@
                    + spec_dec_digits(offset as nat));
            }
        },
        None => {
            push_chars(&mut out, "SELECT ?s ?p ?o WHERE { ?s ?p ?o } LIMIT ");
            push_u64_dec(limit, &mut out);
            push_chars(&mut out, " OFFSET ");
            push_u64_dec(offset, &mut out);
            proof {
                assert(out@ =~= "SELECT ?s ?p ?o WHERE { ?s ?p ?o } LIMIT "@ + spec_dec_digits(
                    limit as nat,
                ) + " OFFSET "@ + spec_dec_digits(offset as nat));
            }
        },
    }
    string_from_chars(&out)
}

/// The query counting the triples of a graph.
pub fn count_query(graph: Option<&String>) -> (r: String)
    ensures
        match graph {
            Some(g) => r@ == "SELECT (COUNT(*) as ?count) WHERE { GRAPH <"@ + g@
                + "> { ?s ?p ?o } }"@,
            None => r@ == "SELECT (COUNT(*) as ?count) WHERE { ?s ?p ?o }"@,
        },
{
    match graph {
        Some(g) => {
            let mut out: Vec<char> = Vec::new();
            push_chars(&mut out, "SELECT (COUNT(*) as ?count) WHERE { GRAPH <");
            push_chars(&mut out, g.as_str());
            push_chars(&mut out, "> { ?s ?p ?o } }");
            proof {
                assert(out@ =~= "SELECT (COUNT(*) as ?count) WHERE { GRAPH <"@ + g@
                    + "> { ?s ?p ?o } }"@);
            }
            string_from_chars(&out)
        },
        None => {
            let out = chars_of("SELECT (COUNT(*) as ?count) WHERE { ?s ?p ?o }");
            string_from_chars(&out)
        },
    }
}

/// The class types that mark a node as a class.
pub open spec fn spec_is_class_type(s: Seq<char>) -> bool {
    s == "http://www.w3.org/2002/07/owl#Class"@ || s == "http://www.w3.org/2000/01/rdf-schema#Class"@
        || s == "http://www.w3.org/2004/02/skos/core#Concept"@ || s
        == "http://www.w3.org/2004/02/skos/core#ConceptScheme"@
}

/// The property types that mark a node as a property.
pub open spec fn spec_is_property_type(s: Seq<char>) -> bool {
    s == "http://www.w3.org/2002/07/owl#ObjectProperty"@ || s
        == "http://www.w3.org/2002/07/owl#DatatypeProperty"@ || s
        == "http://www.w3.org/2002/07/owl#AnnotationProperty"@ || s
        == "http://www.w3.org/1999/02/22-rdf-syntax-ns#Property"@
}

/// The classification the listed types dictate: the first type that is a
/// known class or property type decides; otherwise the node is an
/// instance.
pub open spec fn spec_node_type(ts: Seq<Seq<char>>, i: int) -> NodeType
    decreases ts.len() - i,
{
    if i < 0 || i >= ts.len() {
        NodeType::Instance
    } else if spec_is_class_type(ts[i]) {
        NodeType::Class
    } else if spec_is_property_type(ts[i]) {
        NodeType::Property
    } else {
        spec_node_type(ts, i + 1)
    }
}

/// Classifies a node by its types, as `spec_node_type` describes.
pub fn determine_node_type(types: &Vec<String>) -> (r: NodeType)
    ensures
        r == spec_node_type(types@.map_values(|t: String| t@), 0),
{
    let ghost views = types@.map_values(|t: String| t@);
    let mut i: usize = 0;
    while i < types.len()
        invariant
            0 <= i <= types@.len(),
            views == types@.map_values(|t: String| t@),
            spec_node_type(views, 0) == spec_node_type(views, i as int),
        decreases types@.len() - i,
    {
        proof {
            assert(views[i as int] == types@[i as int]@);
        }
        let t = &types[i];
        if str_eq(t.as_str(), "http://www.w3.org/2002/07/owl#Class") || str_eq(
            t.as_str(),
            "http://www.w3.org/2000/01/rdf-schema#Class",
        ) || str_eq(t.as_str(), "http://www.w3.org/2004/02/skos/core#Concept") || str_eq(
            t.as_str(),
            "http://www.w3.org/2004/02/skos/core#ConceptScheme",
        ) {
            return NodeType::Class;
        }
        if str_eq(t.as_str(), "http://www.w3.org/2002/07/owl#ObjectProperty") || str_eq(
            t.as_str(),
            "http://www.w3.org/2002/07/owl#DatatypeProperty",
        ) || str_eq(t.as_str(), "http://www.w3.org/2002/07/owl#AnnotationProperty") || str_eq(
            t.as_str(),
            "http://www.w3.org/1999/02/22-rdf-syntax-ns#Property",
        ) {
            return NodeType::Property;
        }
        i = i + 1;
    }
    NodeType::Instance
}

/// The last position in `s` holding a hash or slash, or -1 if none.
pub open spec fn spec_last_sep(s: Seq<char>) -> int
    decreases s.len(),
{
    if s.len() == 0 {
        -1
    } else if s.last() == '#' || s.last() == '/' {
        s.len() - 1
    } else {
        spec_last_sep(s.drop_last())
    }
}

/// The short label of a URI: the text after its last hash or slash, if
/// that text is non-empty.
pub open spec fn spec_short_label(s: Seq<char>) -> Option<Seq<char>> {
    let k = spec_last_sep(s);
    if k + 1 < s.len() {
        Some(s.subrange(k + 1, s.len() as int))
    } else {
        None
    }
}

proof fn lemma_last_sep(s: Seq<char>)
    ensures
        -1 <= spec_last_sep(s) < s.len(),
        forall|j: int| spec_last_sep(s) < j < s.len() ==> s[j] != '#' && s[j] != '/',
        spec_last_sep(s) >= 0 ==> s[spec_last_sep(s)] == '#' || s[spec_last_sep(s)] == '/',
    decreases s.len(),
{
    if s.len() == 0 {
    } else if s.last() == '#' || s.last() == '/' {
    } else {
        lemma_last_sep(s.drop_last());
        assert forall|j: int| spec_last_sep(s) < j < s.len() implies s[j] != '#' && s[j] != '/' by {
            if j < s.len() - 1 {
                assert(s.drop_last()[j] == s[j]);
            }
        }
        if spec_last_sep(s) >= 0 {
            assert(s.drop_last()[spec_last_sep(s)] == s[spec_last_sep(s)]);
        }
    }
}

/// Computes the short label of a URI, as `spec_short_label` describes.
pub fn get_short_label(uri: &str) -> (r: Option<String>)
    ensures
        match r {
            Some(l) => spec_short_label(uri@) == Some(l@),
            None => spec_short_label(uri@) is None,
        },
{
    let chars = chars_of(uri);
    let n = chars.len();
    proof {
        lemma_last_sep(uri@);
    }
    let mut b: usize = n;
    while b > 0 && chars[b - 1] != '#' && chars[b - 1] != '/'
        invariant
            0 <= b <= n,
            n == chars@.len(),
            chars@ == uri@,
            forall|j: int| b <= j < n ==> uri@[j] != '#' && uri@[j] != '/',
        decreases b,
    {
        b = b - 1;
    }
    proof {
        assert(b - 1 == spec_last_sep(uri@)) by {
            lemma_last_sep(uri@);
            if b - 1 < spec_last_sep(uri@) {
                assert(uri@[spec_last_sep(uri@)] == '#' || uri@[spec_last_sep(uri@)] == '/');
            }
            if b - 1 > spec_last_sep(uri@) {
                assert(uri@[b - 1] == '#' || uri@[b - 1] == '/');
            }
        }
    }
    if b == n {
        return None;
    }
    let mut out: Vec<char> = Vec::new();
    let mut m: usize = b;
    while m < n
        invariant
            b <= m <= n,
            n == chars@.len(),
            chars@ == uri@,
            out@ =~= uri@.subrange(b as int, m as int),
        decreases n - m,
    {
        out.push(chars[m]);
        proof {
            assert(uri@.subrange(b as int, m + 1) =~= uri@.subrange(b as int, m as int).push(
                uri@[m as int],
            ));
        }
        m = m + 1;
    }
    Some(string_from_chars(&out))
}

/// The result-cache key under which a graph's labelled resources are
/// stored.
pub fn labels_cache_key(graph: &str) -> (r: String)
    ensures
        r@ == "labels:"@ + graph@,
{
    let mut out: Vec<char> = Vec::new();
    push_chars(&mut out, "labels:");
    push_chars(&mut out, graph);
    string_from_chars(&out)
}

/// Whether a query is a SELECT: after trimming whitespace it starts with
/// the word SELECT in any ASCII case.
pub open spec fn spec_ascii_upper(c: char) -> char {
    if 97 <= c as u32 <= 122 {
        (((c as u32) - 32) as u8) as char
    } else {
        c
    }
}

/// Whether a query is served from the result cache: a SELECT query.
pub open spec fn spec_is_select(q: Seq<char>) -> bool {
    let t = spec_trim(q);
    t.len() >= 6 && spec_ascii_upper(t[0]) == 'S' && spec_ascii_upper(t[1]) == 'E'
        && spec_ascii_upper(t[2]) == 'L' && spec_ascii_upper(t[3]) == 'E' && spec_ascii_upper(t[4])
        == 'C' && spec_ascii_upper(t[5]) == 'T'
}

fn upper_char(c: char) -> (r: char)
    ensures
        r == spec_ascii_upper(c),
{
    let code = c as u32;
    if 97 <= code && code <= 122 {
        ((code - 32) as u8) as char
    } else {
        c
    }
}

/// Decides whether a query is a SELECT, as `spec_is_select` describes.
pub fn is_select_query(query: &str) -> (r: bool)
    ensures
        r == spec_is_select(query@),
{
    let chars = chars_of(query);
    let t = trim_chars(&chars);
    if t.len() < 6 {
        return false;
    }
    upper_char(t[0]) == 'S' && upper_char(t[1]) == 'E' && upper_char(t[2]) == 'L' && upper_char(
        t[3],
    ) == 'E' && upper_char(t[4]) == 'C' && upper_char(t[5]) == 'T'
}

/// Names the lowercase hexadecimal SHA-256 digest of a byte sequence; it
/// depends on the bytes alone.
pub uninterp spec fn sha256_hex(bytes: Seq<u8>) -> Seq<char>;

/// Relies on sha2's Sha256 with lowercase hexadecimal formatting: the
/// digest is a function of the bytes alone, and prints as 64 hex digits.
#[verifier::external_body]
fn sha256_hex_digest(bytes: &Vec<u8>) -> (r: String)
    ensures
        r@ == sha256_hex(bytes@),
        r@.len() == 64,
{
    let mut hasher = sha2::Sha256::new();
    hasher.update(bytes.as_slice());
    format!("{:x}", hasher.finalize())
}

/// The cache key of a query against an optional graph: the digest of the
/// query's bytes followed by the graph name's bytes.
pub fn hash_query(query: &str, graph: Option<&String>) -> (r: String)
    ensures
        r@ == sha256_hex(
            vstd::utf8::encode_utf8(query@) + (match graph {
                Some(g) => vstd::utf8::encode_utf8(g@),
                None => Seq::<u8>::empty(),
            }),
        ),
{
    let mut bytes = query.as_bytes_vec();
    match graph {
        Some(g) => {
            let mut gb = g.as_str().as_bytes_vec();
            bytes.append(&mut gb);
        },
        None => {
            proof {
                assert(bytes@ =~= bytes@ + Seq::<u8>::empty());
            }
        },
    }
    sha256_hex_digest(&bytes)
}

/// The first label in the list carrying the wanted language, if any.
pub open spec fn spec_label_for(labels: Seq<(Seq<char>, Seq<char>)>, lang: Seq<char>) -> Option<
    Seq<char>,
>
    decreases labels.len(),
{
    if labels.len() == 0 {
        None
    } else if labels[0].0 == lang {
        Some(labels[0].1)
    } else {
        spec_label_for(labels.drop_first(), lang)
    }
}

/// The label shown for a node: an English label if any, else one without
/// a language, else the first label listed, else nothing.
pub open spec fn spec_best_label(labels: Seq<(Seq<char>, Seq<char>)>) -> Option<Seq<char>> {
    if spec_label_for(labels, "en"@) is Some {
        spec_label_for(labels, "en"@)
    } else if spec_label_for(labels, Seq::<char>::empty()) is Some {
        spec_label_for(labels, Seq::<char>::empty())
    } else if labels.len() > 0 {
        Some(labels[0].1)
    } else {
        None
    }
}

fn label_for(labels: &Vec<(String, String)>, lang: &str) -> (r: Option<String>)
    ensures
        ({
            let views = labels@.map_values(|p: (String, String)| (p.0@, p.1@));
            match r {
                Some(l) => spec_label_for(views, lang@) == Some(l@),
                None => spec_label_for(views, lang@) is None,
            }
        }),
{
    let ghost views = labels@.map_values(|p: (String, String)| (p.0@, p.1@));
    proof {
        assert(views.skip(0) =~= views);
    }
    let mut i: usize = 0;
    while i < labels.len()
        invariant
            0 <= i <= labels@.len(),
            views == labels@.map_values(|p: (String, String)| (p.0@, p.1@)),
            spec_label_for(views, lang@) == spec_label_for(views.skip(i as int), lang@),
        decreases labels@.len() - i,
    {
        proof {
            assert(views[i as int] == (labels@[i as int].0@, labels@[i as int].1@));
            assert(views.skip(i as int)[0] == views[i as int]);
            assert(views.skip(i as int).drop_first() =~= views.skip(i + 1));
        }
        let e = &labels[i];
        if str_eq(e.0.as_str(), lang) {
            return Some(e.1.clone());
        }
        i = i + 1;
    }
    proof {
        assert(views.skip(labels@.len() as int) =~= Seq::<(Seq<char>, Seq<char>)>::empty());
    }
    None
}

/// Picks the label shown for a node, as `spec_best_label` describes: the
/// labels are (language, text) pairs in the order they were gathered.
pub fn get_best_label(labels: &Vec<(String, String)>) -> (r: Option<String>)
    ensures
        ({
            let views = labels@.map_values(|p: (String, String)| (p.0@, p.1@));
            match r {
                Some(l) => spec_best_label(views) == Some(l@),
                None => spec_best_label(views) is None,
            }
        }),
{
    let ghost views = labels@.map_values(|p: (String, String)| (p.0@, p.1@));
    match label_for(labels, "en") {
        Some(l) => Some(l),
        None => {
            match label_for(labels, "") {
                Some(l) => {
                    proof {
                        reveal_strlit("");
                        assert(""@ =~= Seq::<char>::empty());
                    }
                    Some(l)
                },
                None => {
                    proof {
                        reveal_strlit("");
                        assert(""@ =~= Seq::<char>::empty());
                    }
                    if labels.len() > 0 {
                        proof {
                            assert(views[0] == (labels@[0].0@, labels@[0].1@));
                        }
                    }
                    if labels.len() > 0 {
                        Some(labels[0].1.clone())
                    } else {
                        None
                    }
                },
            }
        },
    }
}

} // verus!
