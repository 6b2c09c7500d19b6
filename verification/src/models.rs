//! The data model: triples, RDF nodes, graph-visualization types, request
//! and response shapes, and serialization formats.

use vstd::prelude::*;
use crate::validation::spec_escape;
use crate::text::push_chars;
use crate::text::string_from_chars;

verus! {

/// The mathematical value of a [`Triple`]: its strings as character
/// sequences.
pub struct TripleView {
    pub subject: Seq<char>,
    pub predicate: Seq<char>,
    pub object: RdfNodeView,
    pub graph: Option<Seq<char>>,
}

/// The mathematical value of an [`RdfNode`].
pub enum RdfNodeView {
    Uri { value: Seq<char> },
    Literal { value: Seq<char>, datatype: Option<Seq<char>>, language: Option<Seq<char>> },
    Blank { value: Seq<char> },
}

/// The views of a sequence of triples.
pub open spec fn spec_triple_views(s: Seq<Triple>) -> Seq<TripleView> {
    s.map_values(|t: Triple| t@)
}

/// A subject-predicate-object statement, optionally tied to a named graph.
#[derive(Debug, Clone, PartialEq, Eq)]
pub struct Triple {
    pub subject: String,
    pub predicate: String,
    pub object: RdfNode,
    pub graph: Option<String>,
}

/// One position of a triple: a URI, a literal with optional datatype or
/// language, or a blank node.
#[derive(Debug, Clone, PartialEq, Eq)]
pub enum RdfNode {
    Uri { value: String },
    Literal { value: String, datatype: Option<String>, language: Option<String> },
    Blank { value: String },
}

/// A node of the visualization graph.
#[derive(Debug, Clone, PartialEq, Eq)]
pub struct GraphNode {
    pub uri: String,
    pub label: Option<String>,
    pub types: Vec<String>,
    pub node_type: NodeType,
}

/// An edge of the visualization graph.
#[derive(Debug, Clone, PartialEq, Eq)]
pub struct GraphEdge {
    pub source: String,
    pub target: String,
    pub predicate: String,
    pub label: Option<String>,
}

/// The coarse classification of a graph node.
#[derive(Debug, Clone, Copy, PartialEq, Eq, Structural)]
pub enum NodeType {
    Class,
    Property,
    Instance,
    Literal,
}

pub struct GraphSearchRequest {
    pub query: String,
    pub limit: usize,
}

pub struct GraphExpandRequest {
    pub uri: String,
    pub limit: usize,
}

pub struct GraphDataResponse {
    pub nodes: Vec<GraphNode>,
    pub edges: Vec<GraphEdge>,
}

pub struct GraphPathRequest {
    pub from: String,
    pub to: String,
    pub max_depth: usize,
}

pub struct GraphPath {
    pub nodes: Vec<String>,
    pub edges: Vec<GraphEdge>,
    pub length: usize,
}

/// Default number of results for a graph search request.
pub fn default_search_limit() -> (r: usize)
    ensures
        r == 10,
{
    10
}

/// Default number of neighbours for a graph expansion request.
pub fn default_expansion_limit() -> (r: usize)
    ensures
        r == 50,
{
    50
}

/// Default maximum depth for a path search request.
pub fn default_path_depth() -> (r: usize)
    ensures
        r == 5,
{
    5
}

/// Default page size for paginated queries.
pub fn default_limit() -> (r: usize)
    ensures
        r == 100,
{
    100
}

pub struct SparqlQuery {
    pub query: String,
    pub graph: Option<String>,
}

pub struct PaginatedQuery {
    pub query: String,
    pub graph: Option<String>,
    pub limit: usize,
    pub offset: usize,
}

pub struct SparqlUpdate {
    pub update: String,
    pub graph: Option<String>,
}

pub struct PaginatedResponse<T> {
    pub data: Vec<T>,
    pub total: Option<usize>,
    pub limit: usize,
    pub offset: usize,
    pub has_more: bool,
}

#[derive(Debug, Clone, PartialEq, Eq)]
pub struct UpdateResponse {
    pub success: bool,
    pub message: String,
}

pub struct AddTripleRequest {
    pub subject: String,
    pub predicate: String,
    pub object: RdfNode,
}

pub struct DeleteTripleRequest {
    pub subject: String,
    pub predicate: String,
    pub object: RdfNode,
}

pub struct ReplaceTripleRequest {
    pub old_triple: Triple,
    pub new_triple: Triple,
}

pub struct BatchTripleRequest {
    pub triples: Vec<Triple>,
}

#[derive(Debug)]
pub struct BatchOperationResponse {
    pub success: bool,
    pub processed: usize,
    pub failed: usize,
    pub errors: Vec<String>,
}

#[derive(Debug, Clone)]
pub struct Namespace {
    pub prefix: String,
    pub uri: String,
}

#[derive(Debug, Clone)]
pub struct NamespaceList {
    pub namespaces: Vec<Namespace>,
}

/// A serialization format for graph export and import.
#[derive(Debug, Clone, Copy, PartialEq, Eq, Structural)]
pub enum RdfFormat {
    Turtle,
    NTriples,
    JsonLd,
    RdfXml,
}

pub struct ExportRequest {
    pub graph: Option<String>,
    pub format: RdfFormat,
}

pub struct ImportRequest {
    pub graph: String,
    pub format: RdfFormat,
    pub data: String,
}

/// The MIME type of each serialization format.
pub open spec fn spec_content_type(f: RdfFormat) -> Seq<char> {
    match f {
        RdfFormat::Turtle => "text/turtle"@,
        RdfFormat::NTriples => "application/n-triples"@,
        RdfFormat::JsonLd => "application/ld+json"@,
        RdfFormat::RdfXml => "application/rdf+xml"@,
    }
}

/// The conventional file extension of each serialization format.
pub open spec fn spec_file_extension(f: RdfFormat) -> Seq<char> {
    match f {
        RdfFormat::Turtle => "ttl"@,
        RdfFormat::NTriples => "nt"@,
        RdfFormat::JsonLd => "jsonld"@,
        RdfFormat::RdfXml => "rdf"@,
    }
}

impl RdfFormat {
    /// The MIME type of this format.
    pub fn content_type(&self) -> (r: &'static str)
        ensures
            r@ == spec_content_type(*self),
    {
        match self {
            RdfFormat::Turtle => "text/turtle",
            RdfFormat::NTriples => "application/n-triples",
            RdfFormat::JsonLd => "application/ld+json",
            RdfFormat::RdfXml => "application/rdf+xml",
        }
    }

    /// The conventional file extension of this format.
    pub fn file_extension(&self) -> (r: &'static str)
        ensures
            r@ == spec_file_extension(*self),
    {
        match self {
            RdfFormat::Turtle => "ttl",
            RdfFormat::NTriples => "nt",
            RdfFormat::JsonLd => "jsonld",
            RdfFormat::RdfXml => "rdf",
        }
    }
}

/// The SPARQL text of an RDF node: a URI in angle brackets, a quoted
/// escaped literal with its language or datatype suffix, or a blank-node
/// reference.
pub open spec fn spec_node_pattern(n: RdfNodeView) -> Seq<char> {
    match n {
        RdfNodeView::Uri { value } => seq!['<'] + value + seq!['>'],
        RdfNodeView::Literal { value, datatype, language } => {
            let quoted = seq!['"'] + spec_escape(value) + seq!['"'];
            if language is Some {
                quoted + seq!['@'] + language->0
            } else if datatype is Some {
                quoted + seq!['^', '^', '<'] + datatype->0 + seq!['>']
            } else {
                quoted
            }
        },
        RdfNodeView::Blank { value } => seq!['_', ':'] + value,
    }
}

/// The SPARQL triple pattern: subject and predicate in angle brackets,
/// then the object's text, separated by single spaces.
pub open spec fn spec_sparql_pattern(t: TripleView) -> Seq<char> {
    seq!['<'] + t.subject + seq!['>', ' ', '<'] + t.predicate + seq!['>', ' '] + spec_node_pattern(
        t.object,
    )
}

impl View for RdfNode {
    type V = RdfNodeView;

    open spec fn view(&self) -> RdfNodeView {
        match *self {
            RdfNode::Uri { value } => RdfNodeView::Uri { value: value@ },
            RdfNode::Literal { value, datatype, language } => RdfNodeView::Literal {
                value: value@,
                datatype: match datatype {
                    Some(d) => Some(d@),
                    None => None,
                },
                language: match language {
                    Some(l) => Some(l@),
                    None => None,
                },
            },
            RdfNode::Blank { value } => RdfNodeView::Blank { value: value@ },
        }
    }
}

impl View for Triple {
    type V = TripleView;

    open spec fn view(&self) -> TripleView {
        TripleView {
            subject: self.subject@,
            predicate: self.predicate@,
            object: self.object@,
            graph: match self.graph {
                Some(g) => Some(g@),
                None => None,
            },
        }
    }
}

impl RdfNode {
    /// A copy of this node equal to the original.
    pub fn duplicate(&self) -> (r: Self)
        ensures
            r == *self,
    {
        match self {
            RdfNode::Uri { value } => RdfNode::Uri { value: value.clone() },
            RdfNode::Literal { value, datatype, language } => RdfNode::Literal {
                value: value.clone(),
                datatype: match datatype {
                    Some(d) => Some(d.clone()),
                    None => None,
                },
                language: match language {
                    Some(l) => Some(l.clone()),
                    None => None,
                },
            },
            RdfNode::Blank { value } => RdfNode::Blank { value: value.clone() },
        }
    }
}

impl GraphEdge {
    /// A copy of this edge equal to the original.
    pub fn duplicate(&self) -> (r: Self)
        ensures
            r == *self,
    {
        GraphEdge {
            source: self.source.clone(),
            target: self.target.clone(),
            predicate: self.predicate.clone(),
            label: match &self.label {
                Some(l) => Some(l.clone()),
                None => None,
            },
        }
    }
}

impl Triple {
    /// A copy of this triple equal to the original.
    pub fn duplicate(&self) -> (r: Self)
        ensures
            r == *self,
    {
        Triple {
            subject: self.subject.clone(),
            predicate: self.predicate.clone(),
            object: self.object.duplicate(),
            graph: match &self.graph {
                Some(g) => Some(g.clone()),
                None => None,
            },
        }
    }

    /// Appends the SPARQL text of this triple to `out`.
    pub fn push_sparql_pattern(&self, out: &mut Vec<char>)
        ensures
            final(out)@ == old(out)@ + spec_sparql_pattern(self@),
    {
        out.push('<');
        push_chars(out, self.subject.as_str());
        push_chars(out, "> <");
        push_chars(out, self.predicate.as_str());
        push_chars(out, "> ");
        match &self.object {
            RdfNode::Uri { value } => {
                out.push('<');
                push_chars(out, value.as_str());
                out.push('>');
            },
            RdfNode::Literal { value, datatype, language } => {
                out.push('"');
                let vc = crate::text::chars_of(value.as_str());
                crate::validation::push_escaped(out, &vc);
                out.push('"');
                match language {
                    Some(lang) => {
                        out.push('@');
                        push_chars(out, lang.as_str());
                    },
                    None => {
                        match datatype {
                            Some(dt) => {
                                push_chars(out, "^^<");
                                push_chars(out, dt.as_str());
                                out.push('>');
                            },
                            None => {},
                        }
                    },
                }
            },
            RdfNode::Blank { value } => {
                push_chars(out, "_:");
                push_chars(out, value.as_str());
            },
        }
        proof {
            reveal_strlit("> <");
            reveal_strlit("> ");
            reveal_strlit("^^<");
            reveal_strlit("_:");
            assert(out@ =~= old(out)@ + spec_sparql_pattern(self@));
        }
    }

    /// The SPARQL text of this triple.
    pub fn to_sparql_pattern(&self) -> (r: String)
        ensures
            r@ == spec_sparql_pattern(self@),
    {
        let mut out: Vec<char> = Vec::new();
        self.push_sparql_pattern(&mut out);
        string_from_chars(&out)
    }
}

} // verus!
