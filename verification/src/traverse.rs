//! The decision cores of the graph view: how a node's neighbourhood and
//! description are assembled from plain query rows, how search rows are
//! merged into nodes, which neighbours a breadth-first step visits, and
//! how a found path is rebuilt from the recorded parents. Fetching rows
//! from the remote store is the caller's part; the caller runs the
//! fetch loops and hands each batch of plain values here.

use vstd::prelude::*;
use crate::models::GraphEdge;
use crate::models::GraphNode;
use crate::models::NodeType;
use crate::models::GraphPath;
use crate::text::str_eq;
use crate::text::chars_of;

verus! {

/// The node an edge connects `cur` to, with the edge's predicate: the
/// target if `cur` is the source, else the source.
pub open spec fn spec_neighbor(e: GraphEdge, cur: Seq<char>) -> (Seq<char>, Seq<char>) {
    if e.source@ == cur {
        (e.target@, e.predicate@)
    } else {
        (e.source@, e.predicate@)
    }
}

/// The search state after considering the edges from index `i` on: each
/// unvisited neighbour is marked visited, queued one level deeper, and
/// recorded with its parent and predicate.
pub open spec fn spec_bfs_expand(
    visited: Seq<Seq<char>>,
    queue: Seq<(Seq<char>, usize)>,
    parents: Seq<(Seq<char>, Seq<char>, Seq<char>)>,
    edges: Seq<GraphEdge>,
    cur: Seq<char>,
    depth: usize,
    i: int,
) -> (Seq<Seq<char>>, Seq<(Seq<char>, usize)>, Seq<(Seq<char>, Seq<char>, Seq<char>)>)
    decreases edges.len() - i,
{
    if i < 0 || i >= edges.len() || depth == usize::MAX {
        (visited, queue, parents)
    } else {
        let nb = spec_neighbor(edges[i], cur).0;
        let pred = spec_neighbor(edges[i], cur).1;
        if visited.contains(nb) {
            spec_bfs_expand(visited, queue, parents, edges, cur, depth, i + 1)
        } else {
            spec_bfs_expand(
                visited.push(nb),
                queue.push((nb, (depth + 1) as usize)),
                parents.push((nb, cur, pred)),
                edges,
                cur,
                depth,
                i + 1,
            )
        }
    }
}

fn contains_string(v: &Vec<String>, s: &String) -> (r: bool)
    ensures
        r == v@.map_values(|x: String| x@).contains(s@),
{
    let ghost views = v@.map_values(|x: String| x@);
    let mut i: usize = 0;
    while i < v.len()
        invariant
            0 <= i <= v@.len(),
            views == v@.map_values(|x: String| x@),
            forall|j: int| 0 <= j < i ==> views[j] != s@,
        decreases v@.len() - i,
    {
        proof {
            assert(views[i as int] == v@[i as int]@);
        }
        if str_eq(v[i].as_str(), s.as_str()) {
            proof {
                assert(views.contains(s@));
            }
            return true;
        }
        i = i + 1;
    }
    false
}

/// One breadth-first expansion: considers each edge of the fetched batch
/// in order and visits, queues and records every yet-unvisited
/// neighbour, as `spec_bfs_expand` describes.
pub fn bfs_expand(
    visited: &mut Vec<String>,
    queue: &mut Vec<(String, usize)>,
    parents: &mut Vec<(String, String, String)>,
    edges: &Vec<GraphEdge>,
    cur: &String,
    depth: usize,
)
    requires
        depth < usize::MAX,
    ensures
        ({
            let r = spec_bfs_expand(
                old(visited)@.map_values(|x: String| x@),
                old(queue)@.map_values(|q: (String, usize)| (q.0@, q.1)),
                old(parents)@.map_values(|p: (String, String, String)| (p.0@, p.1@, p.2@)),
                edges@,
                cur@,
                depth,
                0,
            );
            &&& final(visited)@.map_values(|x: String| x@) == r.0
            &&& final(queue)@.map_values(|q: (String, usize)| (q.0@, q.1)) == r.1
            &&& final(parents)@.map_values(|p: (String, String, String)| (p.0@, p.1@, p.2@)) == r.2
        }),
{
    let mut i: usize = 0;
    while i < edges.len()
        invariant
            0 <= i <= edges@.len(),
            depth < usize::MAX,
            spec_bfs_expand(
                old(visited)@.map_values(|x: String| x@),
                old(queue)@.map_values(|q: (String, usize)| (q.0@, q.1)),
                old(parents)@.map_values(|p: (String, String, String)| (p.0@, p.1@, p.2@)),
                edges@,
                cur@,
                depth,
                0,
            ) == spec_bfs_expand(
                visited@.map_values(|x: String| x@),
                queue@.map_values(|q: (String, usize)| (q.0@, q.1)),
                parents@.map_values(|p: (String, String, String)| (p.0@, p.1@, p.2@)),
                edges@,
                cur@,
                depth,
                i as int,
            ),
        decreases edges@.len() - i,
    {
        let e = &edges[i];
        let neighbor: &String = if str_eq(e.source.as_str(), cur.as_str()) {
            &e.target
        } else {
            &e.source
        };
        let ghost pre_v = visited@.map_values(|x: String| x@);
        let ghost pre_q = queue@.map_values(|q: (String, usize)| (q.0@, q.1));
        let ghost pre_p = parents@.map_values(|p: (String, String, String)| (p.0@, p.1@, p.2@));
        if !contains_string(visited, neighbor) {
            let nb = neighbor.clone();
            visited.push(nb.clone());
            queue.push((nb.clone(), depth + 1));
            parents.push((nb, cur.clone(), e.predicate.clone()));
            proof {
                assert(visited@.map_values(|x: String| x@) =~= pre_v.push(
                    spec_neighbor(edges@[i as int], cur@).0,
                ));
                assert(queue@.map_values(|q: (String, usize)| (q.0@, q.1)) =~= pre_q.push(
                    (spec_neighbor(edges@[i as int], cur@).0, (depth + 1) as usize),
                ));
                assert(parents@.map_values(|p: (String, String, String)| (p.0@, p.1@, p.2@))
                    =~= pre_p.push(
                    (
                        spec_neighbor(edges@[i as int], cur@).0,
                        cur@,
                        spec_neighbor(edges@[i as int], cur@).1,
                    ),
                ));
            }
        }
        i = i + 1;
    }
}

/// The predicate that carries type assertions; its edges are left out of
/// the neighbourhood view as noise.
pub open spec fn spec_rdf_type_uri() -> Seq<char> {
    "http://www.w3.org/1999/02/22-rdf-syntax-ns#type"@
}

/// An edge of the neighbourhood view as a mathematical value:
/// (source, target, predicate, label).
pub type EdgeView = (Seq<char>, Seq<char>, Seq<char>, Option<Seq<char>>);

/// The node uris and edges gathered from the rows from index `i` on.
/// A row is (predicate, object) for outgoing edges and
/// (subject, predicate) for incoming ones. Type edges are skipped; a
/// node is listed once, at its first occurrence; every kept row yields
/// one edge labelled with the predicate's short label.
pub open spec fn spec_collect_rows(
    nodes: Seq<Seq<char>>,
    edges: Seq<EdgeView>,
    rows: Seq<(Seq<char>, Seq<char>)>,
    cur: Seq<char>,
    outgoing: bool,
    i: int,
) -> (Seq<Seq<char>>, Seq<EdgeView>)
    decreases rows.len() - i,
{
    if i < 0 || i >= rows.len() {
        (nodes, edges)
    } else {
        let pred = if outgoing {
            rows[i].0
        } else {
            rows[i].1
        };
        let other = if outgoing {
            rows[i].1
        } else {
            rows[i].0
        };
        if pred == spec_rdf_type_uri() {
            spec_collect_rows(nodes, edges, rows, cur, outgoing, i + 1)
        } else {
            let nodes2 = if nodes.contains(other) {
                nodes
            } else {
                nodes.push(other)
            };
            let edge = if outgoing {
                (cur, other, pred, crate::sparql::spec_short_label(pred))
            } else {
                (other, cur, pred, crate::sparql::spec_short_label(pred))
            };
            spec_collect_rows(nodes2, edges.push(edge), rows, cur, outgoing, i + 1)
        }
    }
}

/// The uris of the gathered nodes.
pub open spec fn spec_node_uris(nodes: Seq<GraphNode>) -> Seq<Seq<char>> {
    nodes.map_values(|n: GraphNode| n.uri@)
}

/// The views of the gathered edges.
pub open spec fn spec_edge_views(edges: Seq<GraphEdge>) -> Seq<EdgeView> {
    edges.map_values(
        |e: GraphEdge|
            (
                e.source@,
                e.target@,
                e.predicate@,
                match e.label {
                    Some(l) => Some(l@),
                    None => None,
                },
            ),
    )
}

/// The views of plain string-pair rows.
pub open spec fn spec_row_views(rows: Seq<(String, String)>) -> Seq<(Seq<char>, Seq<char>)> {
    rows.map_values(|r: (String, String)| (r.0@, r.1@))
}

fn contains_node_uri(nodes: &Vec<GraphNode>, uri: &String) -> (r: bool)
    ensures
        r == spec_node_uris(nodes@).contains(uri@),
{
    let mut i: usize = 0;
    while i < nodes.len()
        invariant
            0 <= i <= nodes@.len(),
            forall|j: int| 0 <= j < i ==> (#[trigger] spec_node_uris(nodes@)[j]) != uri@,
        decreases nodes@.len() - i,
    {
        proof {
            assert(spec_node_uris(nodes@)[i as int] == nodes@[i as int].uri@);
        }
        if str_eq(nodes[i].uri.as_str(), uri.as_str()) {
            proof {
                assert(spec_node_uris(nodes@).contains(uri@));
            }
            return true;
        }
        i = i + 1;
    }
    false
}

fn collect_rows(
    nodes: &mut Vec<GraphNode>,
    edges: &mut Vec<GraphEdge>,
    rows: &Vec<(String, String)>,
    cur: &String,
    outgoing: bool,
)
    requires
        forall|j: int|
            0 <= j < old(nodes)@.len() ==> (#[trigger] old(nodes)@[j]).label is None && old(
                nodes,
            )@[j].types@.len() == 0 && old(nodes)@[j].node_type == NodeType::Instance,
    ensures
        ({
            let r = spec_collect_rows(
                spec_node_uris(old(nodes)@),
                spec_edge_views(old(edges)@),
                spec_row_views(rows@),
                cur@,
                outgoing,
                0,
            );
            &&& spec_node_uris(final(nodes)@) == r.0
            &&& spec_edge_views(final(edges)@) == r.1
            &&& forall|j: int|
                0 <= j < final(nodes)@.len() ==> (#[trigger] final(nodes)@[j]).label is None
                    && final(nodes)@[j].types@.len() == 0 && final(nodes)@[j].node_type
                    == NodeType::Instance
        }),
{
    let rdf_type = chars_of("http://www.w3.org/1999/02/22-rdf-syntax-ns#type");
    let mut i: usize = 0;
    while i < rows.len()
        invariant
            0 <= i <= rows@.len(),
            rdf_type@ == spec_rdf_type_uri(),
            spec_collect_rows(
                spec_node_uris(old(nodes)@),
                spec_edge_views(old(edges)@),
                spec_row_views(rows@),
                cur@,
                outgoing,
                0,
            ) == spec_collect_rows(
                spec_node_uris(nodes@),
                spec_edge_views(edges@),
                spec_row_views(rows@),
                cur@,
                outgoing,
                i as int,
            ),
            forall|j: int|
                0 <= j < nodes@.len() ==> (#[trigger] nodes@[j]).label is None
                    && nodes@[j].types@.len() == 0 && nodes@[j].node_type == NodeType::Instance,
        decreases rows@.len() - i,
    {
        let row = &rows[i];
        let pred: &String = if outgoing {
            &row.0
        } else {
            &row.1
        };
        let other: &String = if outgoing {
            &row.1
        } else {
            &row.0
        };
        proof {
            assert(spec_row_views(rows@)[i as int] == (rows@[i as int].0@, rows@[i as int].1@));
        }
        let pc = chars_of(pred.as_str());
        if !crate::text::chars_eq(&pc, &rdf_type) {
            let ghost pre_n = spec_node_uris(nodes@);
            let ghost pre_e = spec_edge_views(edges@);
            if !contains_node_uri(nodes, other) {
                nodes.push(
                    GraphNode {
                        uri: other.clone(),
                        label: None,
                        types: Vec::new(),
                        node_type: NodeType::Instance,
                    },
                );
                proof {
                    assert(spec_node_uris(nodes@) =~= pre_n.push(other@));
                }
            }
            let label = crate::sparql::get_short_label(pred.as_str());
            let edge = if outgoing {
                GraphEdge {
                    source: cur.clone(),
                    target: other.clone(),
                    predicate: pred.clone(),
                    label,
                }
            } else {
                GraphEdge {
                    source: other.clone(),
                    target: cur.clone(),
                    predicate: pred.clone(),
                    label,
                }
            };
            edges.push(edge);
            proof {
                let pv = if outgoing {
                    spec_row_views(rows@)[i as int].0
                } else {
                    spec_row_views(rows@)[i as int].1
                };
                let ov = if outgoing {
                    spec_row_views(rows@)[i as int].1
                } else {
                    spec_row_views(rows@)[i as int].0
                };
                assert(spec_edge_views(edges@) =~= pre_e.push(
                    if outgoing {
                        (cur@, ov, pv, crate::sparql::spec_short_label(pv))
                    } else {
                        (ov, cur@, pv, crate::sparql::spec_short_label(pv))
                    },
                ));
            }
        }
        i = i + 1;
    }
}

/// Gathers a node's neighbourhood from plain query rows: `outgoing` rows
/// are (predicate, object) pairs, `incoming` rows (subject, predicate)
/// pairs. Type edges are skipped, each neighbour appears once, and every
/// kept row yields one edge labelled with its predicate's short label.
pub fn collect_connections(
    outgoing: &Vec<(String, String)>,
    incoming: &Vec<(String, String)>,
    uri: &String,
) -> (r: (Vec<GraphNode>, Vec<GraphEdge>))
    ensures
        ({
            let first = spec_collect_rows(
                Seq::empty(),
                Seq::empty(),
                spec_row_views(outgoing@),
                uri@,
                true,
                0,
            );
            let full = spec_collect_rows(
                first.0,
                first.1,
                spec_row_views(incoming@),
                uri@,
                false,
                0,
            );
            &&& spec_node_uris(r.0@) == full.0
            &&& spec_edge_views(r.1@) == full.1
            &&& forall|j: int|
                0 <= j < r.0@.len() ==> (#[trigger] r.0@[j]).label is None && r.0@[j].types@.len()
                    == 0 && r.0@[j].node_type == NodeType::Instance
        }),
{
    let mut nodes: Vec<GraphNode> = Vec::new();
    let mut edges: Vec<GraphEdge> = Vec::new();
    proof {
        assert(spec_node_uris(nodes@) =~= Seq::<Seq<char>>::empty());
        assert(spec_edge_views(edges@) =~= Seq::<EdgeView>::empty());
    }
    collect_rows(&mut nodes, &mut edges, outgoing, uri, true);
    collect_rows(&mut nodes, &mut edges, incoming, uri, false);
    (nodes, edges)
}

/// The view of an optional string, the absent case standing for the
/// empty text.
pub open spec fn spec_opt_or_empty(s: Option<Seq<char>>) -> Seq<char> {
    match s {
        Some(t) => t,
        None => Seq::empty(),
    }
}

/// An info row as a mathematical value: (type, label, language), each
/// optional.
pub type InfoRowView = (Option<Seq<char>>, Option<Seq<char>>, Option<Seq<char>>);

/// The views of info rows.
pub open spec fn spec_info_row_views(rows: Seq<(Option<String>, Option<String>, Option<String>)>) -> Seq<
    InfoRowView,
> {
    rows.map_values(
        |r: (Option<String>, Option<String>, Option<String>)|
            (
                match r.0 {
                    Some(t) => Some(t@),
                    None => None,
                },
                match r.1 {
                    Some(l) => Some(l@),
                    None => None,
                },
                match r.2 {
                    Some(g) => Some(g@),
                    None => None,
                },
            ),
    )
}

/// The distinct types listed by the rows from index `i` on, each at its
/// first occurrence, appended to `acc`.
pub open spec fn spec_info_types(rows: Seq<InfoRowView>, i: int, acc: Seq<Seq<char>>) -> Seq<
    Seq<char>,
>
    decreases rows.len() - i,
{
    if i < 0 || i >= rows.len() {
        acc
    } else {
        match rows[i].0 {
            Some(t) => if acc.contains(t) {
                spec_info_types(rows, i + 1, acc)
            } else {
                spec_info_types(rows, i + 1, acc.push(t))
            },
            None => spec_info_types(rows, i + 1, acc),
        }
    }
}

/// The (language, label) pairs the rows from index `i` on contribute, in
/// row order; a row without a language tags its label with the empty
/// text.
pub open spec fn spec_info_labels(rows: Seq<InfoRowView>, i: int) -> Seq<(Seq<char>, Seq<char>)>
    decreases rows.len() - i,
{
    if i < 0 || i >= rows.len() {
        Seq::empty()
    } else {
        (match rows[i].1 {
            Some(l) => seq![(spec_opt_or_empty(rows[i].2), l)],
            None => Seq::empty(),
        }) + spec_info_labels(rows, i + 1)
    }
}

/// Builds the description of one node from plain query rows of
/// (type, label, language) values: the types listed once each in first
/// appearance order, the label chosen by `spec_best_label` over the
/// gathered (language, label) pairs, and the classification the types
/// dictate.
pub fn collect_node_info(
    uri: &String,
    rows: &Vec<(Option<String>, Option<String>, Option<String>)>,
) -> (n: GraphNode)
    ensures
        ({
            let views = spec_info_row_views(rows@);
            let types = spec_info_types(views, 0, Seq::empty());
            let labels = spec_info_labels(views, 0);
            &&& n.uri@ == uri@
            &&& n.types@.map_values(|t: String| t@) == types
            &&& (match n.label {
                Some(l) => crate::sparql::spec_best_label(labels) == Some(l@),
                None => crate::sparql::spec_best_label(labels) is None,
            })
            &&& n.node_type == crate::sparql::spec_node_type(types, 0)
        }),
{
    let ghost views = spec_info_row_views(rows@);
    let mut types: Vec<String> = Vec::new();
    let mut labels: Vec<(String, String)> = Vec::new();
    proof {
        assert(types@.map_values(|t: String| t@) =~= Seq::<Seq<char>>::empty());
        assert(labels@.map_values(|p: (String, String)| (p.0@, p.1@)) =~= Seq::<
            (Seq<char>, Seq<char>),
        >::empty());
    }
    let mut i: usize = 0;
    while i < rows.len()
        invariant
            0 <= i <= rows@.len(),
            views == spec_info_row_views(rows@),
            spec_info_types(views, 0, Seq::empty()) == spec_info_types(
                views,
                i as int,
                types@.map_values(|t: String| t@),
            ),
            labels@.map_values(|p: (String, String)| (p.0@, p.1@)) + spec_info_labels(
                views,
                i as int,
            ) =~= spec_info_labels(views, 0),
        decreases rows@.len() - i,
    {
        proof {
            assert(views[i as int] == spec_info_row_views(rows@)[i as int]);
        }
        let row = &rows[i];
        let ghost pre_t = types@.map_values(|t: String| t@);
        match &row.0 {
            Some(t) => {
                if !contains_string(&types, t) {
                    types.push(t.clone());
                    proof {
                        assert(types@.map_values(|t2: String| t2@) =~= pre_t.push(t@));
                    }
                }
            },
            None => {},
        }
        let ghost pre_l = labels@.map_values(|p: (String, String)| (p.0@, p.1@));
        match &row.1 {
            Some(l) => {
                let lang: String = match &row.2 {
                    Some(g) => g.clone(),
                    None => String::new(),
                };
                labels.push((lang, l.clone()));
                proof {
                    assert(labels@.map_values(|p: (String, String)| (p.0@, p.1@)) =~= pre_l.push(
                        (spec_opt_or_empty(views[i as int].2), l@),
                    ));
                    assert(pre_l.push((spec_opt_or_empty(views[i as int].2), l@)) =~= pre_l + seq![
                        (spec_opt_or_empty(views[i as int].2), l@),
                    ]);
                    assert((pre_l + seq![(spec_opt_or_empty(views[i as int].2), l@)])
                        + spec_info_labels(views, i + 1) =~= pre_l + (seq![
                        (spec_opt_or_empty(views[i as int].2), l@),
                    ] + spec_info_labels(views, i + 1)));
                }
            },
            None => {
                proof {
                    assert(Seq::<(Seq<char>, Seq<char>)>::empty() + spec_info_labels(views, i + 1)
                        =~= spec_info_labels(views, i + 1));
                }
            },
        }
        i = i + 1;
    }
    proof {
        assert(spec_info_labels(views, rows@.len() as int) =~= Seq::<(Seq<char>, Seq<char>)>::empty());
        assert(labels@.map_values(|p: (String, String)| (p.0@, p.1@)) + Seq::<
            (Seq<char>, Seq<char>),
        >::empty() =~= labels@.map_values(|p: (String, String)| (p.0@, p.1@)));
    }
    let label = crate::sparql::get_best_label(&labels);
    let node_type = crate::sparql::determine_node_type(&types);
    GraphNode { uri: uri.clone(), label, types, node_type }
}

/// A search row as a mathematical value: (resource, label, type).
pub type SearchRowView = (Seq<char>, Option<Seq<char>>, Option<Seq<char>>);

/// The views of search rows.
pub open spec fn spec_search_row_views(rows: Seq<(String, Option<String>, Option<String>)>) -> Seq<
    SearchRowView,
> {
    rows.map_values(
        |r: (String, Option<String>, Option<String>)|
            (
                r.0@,
                match r.1 {
                    Some(l) => Some(l@),
                    None => None,
                },
                match r.2 {
                    Some(t) => Some(t@),
                    None => None,
                },
            ),
    )
}

/// The distinct resources of the rows from index `i` on, each at its
/// first occurrence, appended to `acc`.
pub open spec fn spec_search_resources(rows: Seq<SearchRowView>, i: int, acc: Seq<Seq<char>>) -> Seq<
    Seq<char>,
>
    decreases rows.len() - i,
{
    if i < 0 || i >= rows.len() {
        acc
    } else if acc.contains(rows[i].0) {
        spec_search_resources(rows, i + 1, acc)
    } else {
        spec_search_resources(rows, i + 1, acc.push(rows[i].0))
    }
}

/// The first label any row gives the resource, if any.
pub open spec fn spec_search_label(rows: Seq<SearchRowView>, res: Seq<char>) -> Option<Seq<char>>
    decreases rows.len(),
{
    if rows.len() == 0 {
        None
    } else if rows[0].0 == res && rows[0].1 is Some {
        rows[0].1
    } else {
        spec_search_label(rows.drop_first(), res)
    }
}

/// The distinct types the rows from index `i` on give the resource, each
/// at its first occurrence, appended to `acc`.
pub open spec fn spec_search_types(
    rows: Seq<SearchRowView>,
    res: Seq<char>,
    i: int,
    acc: Seq<Seq<char>>,
) -> Seq<Seq<char>>
    decreases rows.len() - i,
{
    if i < 0 || i >= rows.len() {
        acc
    } else {
        match rows[i].2 {
            Some(t) => if rows[i].0 == res && !acc.contains(t) {
                spec_search_types(rows, res, i + 1, acc.push(t))
            } else {
                spec_search_types(rows, res, i + 1, acc)
            },
            None => spec_search_types(rows, res, i + 1, acc),
        }
    }
}

fn search_label_for(rows: &Vec<(String, Option<String>, Option<String>)>, res: &String) -> (r:
    Option<String>)
    ensures
        ({
            let views = spec_search_row_views(rows@);
            match r {
                Some(l) => spec_search_label(views, res@) == Some(l@),
                None => spec_search_label(views, res@) is None,
            }
        }),
{
    let ghost views = spec_search_row_views(rows@);
    proof {
        assert(views.skip(0) =~= views);
    }
    let mut i: usize = 0;
    while i < rows.len()
        invariant
            0 <= i <= rows@.len(),
            views == spec_search_row_views(rows@),
            spec_search_label(views, res@) == spec_search_label(views.skip(i as int), res@),
        decreases rows@.len() - i,
    {
        proof {
            assert(views[i as int] == spec_search_row_views(rows@)[i as int]);
            assert(views.skip(i as int)[0] == views[i as int]);
            assert(views.skip(i as int).drop_first() =~= views.skip(i + 1));
        }
        let row = &rows[i];
        if str_eq(row.0.as_str(), res.as_str()) {
            match &row.1 {
                Some(l) => {
                    return Some(l.clone());
                },
                None => {},
            }
        }
        i = i + 1;
    }
    proof {
        assert(views.skip(rows@.len() as int) =~= Seq::<SearchRowView>::empty());
    }
    None
}

fn search_types_for(rows: &Vec<(String, Option<String>, Option<String>)>, res: &String) -> (r: Vec<
    String,
>)
    ensures
        r@.map_values(|t: String| t@) == spec_search_types(
            spec_search_row_views(rows@),
            res@,
            0,
            Seq::empty(),
        ),
{
    let ghost views = spec_search_row_views(rows@);
    let mut types: Vec<String> = Vec::new();
    proof {
        assert(types@.map_values(|t: String| t@) =~= Seq::<Seq<char>>::empty());
    }
    let mut i: usize = 0;
    while i < rows.len()
        invariant
            0 <= i <= rows@.len(),
            views == spec_search_row_views(rows@),
            spec_search_types(views, res@, 0, Seq::empty()) == spec_search_types(
                views,
                res@,
                i as int,
                types@.map_values(|t: String| t@),
            ),
        decreases rows@.len() - i,
    {
        proof {
            assert(views[i as int] == spec_search_row_views(rows@)[i as int]);
        }
        let row = &rows[i];
        let ghost pre = types@.map_values(|t: String| t@);
        match &row.2 {
            Some(t) => {
                if str_eq(row.0.as_str(), res.as_str()) && !contains_string(&types, t) {
                    types.push(t.clone());
                    proof {
                        assert(types@.map_values(|t2: String| t2@) =~= pre.push(t@));
                    }
                }
            },
            None => {},
        }
        i = i + 1;
    }
    types
}

/// Merges search rows of (resource, label, type) values into one node
/// per distinct resource, in first-appearance order: each node carries
/// the first label any of its rows gave, its types listed once each,
/// and the classification those types dictate.
pub fn collect_search_nodes(rows: &Vec<(String, Option<String>, Option<String>)>) -> (r: Vec<
    GraphNode,
>)
    ensures
        ({
            let views = spec_search_row_views(rows@);
            let resources = spec_search_resources(views, 0, Seq::empty());
            &&& spec_node_uris(r@) == resources
            &&& forall|k: int|
                0 <= k < r@.len() ==> {
                    let types = spec_search_types(views, resources[k], 0, Seq::empty());
                    &&& (match (#[trigger] r@[k]).label {
                        Some(l) => spec_search_label(views, resources[k]) == Some(l@),
                        None => spec_search_label(views, resources[k]) is None,
                    })
                    &&& r@[k].types@.map_values(|t: String| t@) == types
                    &&& r@[k].node_type == crate::sparql::spec_node_type(types, 0)
                }
        }),
{
    let ghost views = spec_search_row_views(rows@);
    // First pass: the distinct resources in first-appearance order.
    let mut resources: Vec<String> = Vec::new();
    proof {
        assert(resources@.map_values(|x: String| x@) =~= Seq::<Seq<char>>::empty());
    }
    let mut i: usize = 0;
    while i < rows.len()
        invariant
            0 <= i <= rows@.len(),
            views == spec_search_row_views(rows@),
            spec_search_resources(views, 0, Seq::empty()) == spec_search_resources(
                views,
                i as int,
                resources@.map_values(|x: String| x@),
            ),
        decreases rows@.len() - i,
    {
        proof {
            assert(views[i as int] == spec_search_row_views(rows@)[i as int]);
        }
        let row = &rows[i];
        let ghost pre = resources@.map_values(|x: String| x@);
        if !contains_string(&resources, &row.0) {
            resources.push(row.0.clone());
            proof {
                assert(resources@.map_values(|x: String| x@) =~= pre.push(row.0@));
            }
        }
        i = i + 1;
    }
    // Second pass: one node per resource.
    let ghost resource_views = spec_search_resources(views, 0, Seq::empty());
    let mut out: Vec<GraphNode> = Vec::new();
    let mut k: usize = 0;
    while k < resources.len()
        invariant
            0 <= k <= resources@.len(),
            views == spec_search_row_views(rows@),
            resource_views == resources@.map_values(|x: String| x@),
            out@.len() == k,
            forall|m: int|
                0 <= m < k ==> {
                    let types = spec_search_types(views, resource_views[m], 0, Seq::empty());
                    &&& (#[trigger] out@[m]).uri@ == resource_views[m]
                    &&& (match out@[m].label {
                        Some(l) => spec_search_label(views, resource_views[m]) == Some(l@),
                        None => spec_search_label(views, resource_views[m]) is None,
                    })
                    &&& out@[m].types@.map_values(|t: String| t@) == types
                    &&& out@[m].node_type == crate::sparql::spec_node_type(types, 0)
                },
        decreases resources@.len() - k,
    {
        proof {
            assert(resource_views[k as int] == resources@[k as int]@);
        }
        let res = &resources[k];
        let label = search_label_for(rows, res);
        let types = search_types_for(rows, res);
        let node_type = crate::sparql::determine_node_type(&types);
        out.push(GraphNode { uri: res.clone(), label, types, node_type });
        k = k + 1;
    }
    proof {
        assert(spec_node_uris(out@) =~= resource_views);
    }
    out
}

/// The parent and predicate recorded for a node, if any.
pub open spec fn spec_parent_of(
    parents: Seq<(Seq<char>, Seq<char>, Seq<char>)>,
    node: Seq<char>,
) -> Option<(Seq<char>, Seq<char>)>
    decreases parents.len(),
{
    if parents.len() == 0 {
        None
    } else if parents[0].0 == node {
        Some((parents[0].1, parents[0].2))
    } else {
        spec_parent_of(parents.drop_first(), node)
    }
}

fn parent_of(parents: &Vec<(String, String, String)>, node: &String) -> (r: Option<(
    String,
    String,
)>)
    ensures
        ({
            let views = parents@.map_values(|p: (String, String, String)| (p.0@, p.1@, p.2@));
            match r {
                Some(pp) => spec_parent_of(views, node@) == Some((pp.0@, pp.1@)),
                None => spec_parent_of(views, node@) is None,
            }
        }),
{
    let ghost views = parents@.map_values(|p: (String, String, String)| (p.0@, p.1@, p.2@));
    proof {
        assert(views.skip(0) =~= views);
    }
    let mut i: usize = 0;
    while i < parents.len()
        invariant
            0 <= i <= parents@.len(),
            views == parents@.map_values(|p: (String, String, String)| (p.0@, p.1@, p.2@)),
            spec_parent_of(views, node@) == spec_parent_of(views.skip(i as int), node@),
        decreases parents@.len() - i,
    {
        proof {
            assert(views[i as int] == (parents@[i as int].0@, parents@[i as int].1@, parents@[i as int].2@));
            assert(views.skip(i as int)[0] == views[i as int]);
            assert(views.skip(i as int).drop_first() =~= views.skip(i + 1));
        }
        let p = &parents[i];
        if str_eq(p.0.as_str(), node.as_str()) {
            return Some((p.1.clone(), p.2.clone()));
        }
        i = i + 1;
    }
    proof {
        assert(views.skip(parents@.len() as int) =~= Seq::<(Seq<char>, Seq<char>, Seq<char>)>::empty());
    }
    None
}

/// Rebuilds the found path from the recorded parents, walking back from
/// `to` until a node without a parent. The walk takes at most one step
/// per recorded parent; a longer chain means the records are circular,
/// and nothing is returned. The result lists the nodes from the start to
/// `to`, with one edge between each consecutive pair.
pub fn reconstruct_path(parents: &Vec<(String, String, String)>, to: &String) -> (r: Option<
    GraphPath,
>)
    ensures
        r matches Some(p) ==> ({
            &&& p.nodes@.len() == p.edges@.len() + 1
            &&& p.length == p.edges@.len()
            &&& p.nodes@.len() >= 1
            &&& p.nodes@[p.nodes@.len() - 1]@ == to@
            &&& forall|k: int|
                0 <= k < p.edges@.len() ==> (#[trigger] p.edges@[k]).source@ == p.nodes@[k]@
                    && p.edges@[k].target@ == p.nodes@[k + 1]@
        }),
{
    let mut rev_nodes: Vec<String> = Vec::new();
    let mut rev_edges: Vec<GraphEdge> = Vec::new();
    let mut node = to.clone();
    rev_nodes.push(node.clone());
    let mut steps: usize = 0;
    let fuel = parents.len();
    loop
        invariant
            steps <= fuel,
            rev_nodes@.len() == steps + 1,
            rev_edges@.len() == steps,
            rev_nodes@[0]@ == to@,
            node@ == rev_nodes@[steps as int]@,
            forall|k: int|
                0 <= k < rev_edges@.len() ==> (#[trigger] rev_edges@[k]).target@ == rev_nodes@[k]@
                    && rev_edges@[k].source@ == rev_nodes@[k + 1]@,
        ensures
            rev_nodes@.len() == rev_edges@.len() + 1,
            rev_nodes@[0]@ == to@,
            forall|k: int|
                0 <= k < rev_edges@.len() ==> (#[trigger] rev_edges@[k]).target@ == rev_nodes@[k]@
                    && rev_edges@[k].source@ == rev_nodes@[k + 1]@,
        decreases fuel - steps,
    {
        match parent_of(parents, &node) {
            Some((parent, predicate)) => {
                if steps == fuel {
                    // A chain longer than the record count is circular.
                    return None;
                }
                rev_edges.push(
                    GraphEdge {
                        source: parent.clone(),
                        target: node.clone(),
                        predicate,
                        label: None,
                    },
                );
                rev_nodes.push(parent.clone());
                node = parent;
                steps = steps + 1;
            },
            None => {
                break ;
            },
        }
    }
    // Reverse into start-to-end order.
    let n = rev_nodes.len();
    let m = rev_edges.len();
    let mut nodes: Vec<String> = Vec::new();
    let mut i: usize = n;
    while i > 0
        invariant
            0 <= i <= n,
            n == rev_nodes@.len(),
            nodes@.len() == n - i,
            forall|k: int| 0 <= k < nodes@.len() ==> (#[trigger] nodes@[k])@ == rev_nodes@[n - 1
                - k]@,
        decreases i,
    {
        i = i - 1;
        nodes.push(rev_nodes[i].clone());
    }
    let mut edges: Vec<GraphEdge> = Vec::new();
    let mut j: usize = m;
    while j > 0
        invariant
            0 <= j <= m,
            m == rev_edges@.len(),
            edges@.len() == m - j,
            forall|k: int| 0 <= k < edges@.len() ==> #[trigger] edges@[k] == rev_edges@[m - 1 - k],
        decreases j,
    {
        j = j - 1;
        edges.push(rev_edges[j].duplicate());
    }
    proof {
        assert forall|k: int| 0 <= k < edges@.len() implies (#[trigger] edges@[k]).source@
            == nodes@[k]@ && edges@[k].target@ == nodes@[k + 1]@ by {
            assert(edges@[k] == rev_edges@[m - 1 - k]);
            assert(rev_edges@[m - 1 - k].target@ == rev_nodes@[m - 1 - k]@);
            assert(rev_edges@[m - 1 - k].source@ == rev_nodes@[m - k]@);
            assert(nodes@[k + 1]@ == rev_nodes@[n - 2 - k]@);
        }
    }
    Some(GraphPath { nodes, edges, length: m })
}

} // verus!
