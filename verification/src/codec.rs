//! The line format of the transaction log: one JSON object per line, UTF-8
//! text, fields in a fixed order, absent optional fields written as
//! `null`. The encoder emits exactly this canonical form; the parser
//! accepts exactly the canonical form and reports anything else as
//! unparseable, which readers treat as a line to skip.

use vstd::prelude::*;
use crate::models::RdfNode;
use crate::models::RdfNodeView;
use crate::models::Triple;
use crate::models::TripleView;
use crate::models::spec_triple_views;
use crate::text::chars_of;
use crate::text::push_chars;
use crate::text::push_u64_dec;
use crate::text::spec_dec_digits;
use crate::text::string_from_chars;
use crate::transaction_log::TransactionRecord;
use crate::transaction_log::TransactionRecordView;
use crate::transaction_log::TransactionType;
use crate::validation::push_escaped;
use crate::validation::spec_escape_char;
use crate::validation::spec_escape;

verus! {

/// A value as a quoted, escaped JSON string.
pub open spec fn enc_jstr(v: Seq<char>) -> Seq<char> {
    seq!['"'] + spec_escape(v) + seq!['"']
}

/// An optional string: `null` when absent.
pub open spec fn enc_opt_str(v: Option<Seq<char>>) -> Seq<char> {
    match v {
        Option::None => "null"@,
        Option::Some(t) => enc_jstr(t),
    }
}

/// The serialized name of a transaction type.
pub open spec fn tt_name(t: TransactionType) -> Seq<char> {
    match t {
        TransactionType::AddTriple => "AddTriple"@,
        TransactionType::DeleteTriple => "DeleteTriple"@,
        TransactionType::ReplaceTriple => "ReplaceTriple"@,
        TransactionType::AddTriplesBatch => "AddTriplesBatch"@,
        TransactionType::DeleteTriplesBatch => "DeleteTriplesBatch"@,
        TransactionType::DropGraph => "DropGraph"@,
        TransactionType::ImportData => "ImportData"@,
    }
}

/// An RDF node as a tagged JSON object.
pub open spec fn enc_node(n: RdfNodeView) -> Seq<char> {
    match n {
        RdfNodeView::Uri { value } => "{\"type\":\"uri\",\"value\":"@ + enc_jstr(value) + "}"@,
        RdfNodeView::Literal { value, datatype, language } => "{\"type\":\"literal\",\"value\":"@
            + enc_jstr(value) + ",\"datatype\":"@ + enc_opt_str(datatype) + ",\"language\":"@
            + enc_opt_str(language) + "}"@,
        RdfNodeView::Blank { value } => "{\"type\":\"blank\",\"value\":"@ + enc_jstr(value) + "}"@,
    }
}

/// A triple as a JSON object.
pub open spec fn enc_triple(t: TripleView) -> Seq<char> {
    "{\"subject\":"@ + enc_jstr(t.subject) + ",\"predicate\":"@ + enc_jstr(t.predicate)
        + ",\"object\":"@ + enc_node(t.object) + ",\"graph\":"@ + enc_opt_str(t.graph) + "}"@
}

/// The comma-separated items of a triple array.
pub open spec fn enc_triple_items(ts: Seq<TripleView>) -> Seq<char>
    decreases ts.len(),
{
    if ts.len() == 0 {
        Seq::empty()
    } else if ts.len() == 1 {
        enc_triple(ts[0])
    } else {
        enc_triple(ts[0]) + seq![','] + enc_triple_items(ts.drop_first())
    }
}

/// A triple array in brackets.
pub open spec fn enc_triples(ts: Seq<TripleView>) -> Seq<char> {
    seq!['['] + enc_triple_items(ts) + seq![']']
}

/// An optional triple array: `null` when absent.
pub open spec fn enc_opt_triples(v: Option<Seq<TripleView>>) -> Seq<char> {
    match v {
        Option::None => "null"@,
        Option::Some(ts) => enc_triples(ts),
    }
}

/// The canonical line for one record, without the trailing newline.
pub open spec fn spec_encode_record(r: TransactionRecordView) -> Seq<char> {
    "{\"id\":"@ + enc_jstr(r.id) + ",\"timestamp\":"@ + spec_dec_digits(r.timestamp as nat)
        + ",\"transaction_type\":\""@ + tt_name(r.transaction_type) + seq!['"'] + ",\"graph\":"@
        + enc_opt_str(r.graph) + ",\"old_data\":"@ + enc_opt_triples(r.old_data)
        + ",\"new_data\":"@ + enc_opt_triples(r.new_data) + ",\"description\":"@ + enc_jstr(
        r.description,
    ) + ",\"user_id\":"@ + enc_opt_str(r.user_id) + ",\"user_name\":"@ + enc_opt_str(r.user_name)
        + seq!['}']
}

fn push_jstr(out: &mut Vec<char>, v: &String)
    ensures
        final(out)@ == old(out)@ + enc_jstr(v@),
{
    out.push('"');
    let chars = chars_of(v.as_str());
    push_escaped(out, &chars);
    out.push('"');
    proof {
        assert(out@ =~= old(out)@ + enc_jstr(v@));
    }
}

fn push_opt_str(out: &mut Vec<char>, v: &Option<String>)
    ensures
        final(out)@ == old(out)@ + enc_opt_str(
            match v {
                Option::Some(t) => Option::Some(t@),
                Option::None => Option::None,
            },
        ),
{
    match v {
        Some(t) => push_jstr(out, t),
        None => push_chars(out, "null"),
    }
}

fn push_node(out: &mut Vec<char>, n: &RdfNode)
    ensures
        final(out)@ == old(out)@ + enc_node(n@),
{
    match n {
        RdfNode::Uri { value } => {
            push_chars(out, "{\"type\":\"uri\",\"value\":");
            push_jstr(out, value);
            push_chars(out, "}");
            proof {
                assert(out@ =~= old(out)@ + enc_node(n@));
            }
        },
        RdfNode::Literal { value, datatype, language } => {
            push_chars(out, "{\"type\":\"literal\",\"value\":");
            push_jstr(out, value);
            push_chars(out, ",\"datatype\":");
            push_opt_str(out, datatype);
            push_chars(out, ",\"language\":");
            push_opt_str(out, language);
            push_chars(out, "}");
            proof {
                assert(out@ =~= old(out)@ + enc_node(n@));
            }
        },
        RdfNode::Blank { value } => {
            push_chars(out, "{\"type\":\"blank\",\"value\":");
            push_jstr(out, value);
            push_chars(out, "}");
            proof {
                assert(out@ =~= old(out)@ + enc_node(n@));
            }
        },
    }
}

fn push_triple(out: &mut Vec<char>, t: &Triple)
    ensures
        final(out)@ == old(out)@ + enc_triple(t@),
{
    push_chars(out, "{\"subject\":");
    push_jstr(out, &t.subject);
    push_chars(out, ",\"predicate\":");
    push_jstr(out, &t.predicate);
    push_chars(out, ",\"object\":");
    push_node(out, &t.object);
    push_chars(out, ",\"graph\":");
    push_opt_str(out, &t.graph);
    push_chars(out, "}");
    proof {
        assert(out@ =~= old(out)@ + enc_triple(t@));
    }
}

fn push_triple_items(out: &mut Vec<char>, ts: &Vec<Triple>, from: usize)
    requires
        from <= ts@.len(),
    ensures
        final(out)@ == old(out)@ + enc_triple_items(
            spec_triple_views(ts@).skip(from as int),
        ),
    decreases ts@.len() - from,
{
    let ghost tail = spec_triple_views(ts@).skip(from as int);
    if from == ts.len() {
        proof {
            assert(tail =~= Seq::<TripleView>::empty());
            assert(out@ =~= out@ + enc_triple_items(tail));
        }
    } else {
        push_triple(out, &ts[from]);
        proof {
            assert(tail[0] == ts@[from as int]@);
        }
        if from + 1 == ts.len() {
            proof {
                assert(tail.len() == 1);
                assert(enc_triple_items(tail) == enc_triple(tail[0]));
            }
        } else {
            push_chars(out, ",");
            push_triple_items(out, ts, from + 1);
            proof {
                assert(tail.drop_first() =~= spec_triple_views(ts@).skip(from + 1));
                assert(tail.len() >= 2);
                assert(enc_triple_items(tail) == enc_triple(tail[0]) + seq![',']
                    + enc_triple_items(tail.drop_first()));
                reveal_strlit(",");
                assert(","@ =~= seq![',']);
                assert(out@ =~= old(out)@ + enc_triple_items(tail));
            }
        }
    }
}

fn push_opt_triples(out: &mut Vec<char>, v: &Option<Vec<Triple>>)
    ensures
        final(out)@ == old(out)@ + enc_opt_triples(
            match v {
                Option::Some(ts) => Option::Some(spec_triple_views(ts@)),
                Option::None => Option::None,
            },
        ),
{
    match v {
        Some(ts) => {
            out.push('[');
            push_triple_items(out, ts, 0);
            out.push(']');
            proof {
                assert(spec_triple_views(ts@).skip(0) =~= spec_triple_views(ts@));
                assert(out@ =~= old(out)@ + enc_triples(spec_triple_views(ts@)));
            }
        },
        None => push_chars(out, "null"),
    }
}

fn push_tt(out: &mut Vec<char>, t: &TransactionType)
    ensures
        final(out)@ == old(out)@ + tt_name(*t),
{
    match t {
        TransactionType::AddTriple => push_chars(out, "AddTriple"),
        TransactionType::DeleteTriple => push_chars(out, "DeleteTriple"),
        TransactionType::ReplaceTriple => push_chars(out, "ReplaceTriple"),
        TransactionType::AddTriplesBatch => push_chars(out, "AddTriplesBatch"),
        TransactionType::DeleteTriplesBatch => push_chars(out, "DeleteTriplesBatch"),
        TransactionType::DropGraph => push_chars(out, "DropGraph"),
        TransactionType::ImportData => push_chars(out, "ImportData"),
    }
}

proof fn lemma_assoc_step(o: Seq<char>, acc: Seq<char>, seg: Seq<char>)
    ensures
        (o + acc) + seg == o + (acc + seg),
{
    assert((o + acc) + seg =~= o + (acc + seg));
}

proof fn lemma_push_step(o: Seq<char>, acc: Seq<char>, c: char)
    ensures
        (o + acc).push(c) == o + (acc + seq![c]),
{
    assert((o + acc).push(c) =~= o + (acc + seq![c]));
}

/// Appends the canonical line for `r`, without a newline, to `out`.
pub fn push_record(out: &mut Vec<char>, r: &TransactionRecord)
    ensures
        final(out)@ == old(out)@ + spec_encode_record(r@),
{
    let ghost o = out@;
    push_chars(out, "{\"id\":");
    let ghost mut acc = "{\"id\":"@;
    push_jstr(out, &r.id);
    proof {
        lemma_assoc_step(o, acc, enc_jstr(r.id@));
        acc = acc + enc_jstr(r.id@);
    }
    push_chars(out, ",\"timestamp\":");
    proof {
        lemma_assoc_step(o, acc, ",\"timestamp\":"@);
        acc = acc + ",\"timestamp\":"@;
    }
    push_u64_dec(r.timestamp, out);
    proof {
        lemma_assoc_step(o, acc, spec_dec_digits(r.timestamp as nat));
        acc = acc + spec_dec_digits(r.timestamp as nat);
    }
    push_chars(out, ",\"transaction_type\":\"");
    proof {
        lemma_assoc_step(o, acc, ",\"transaction_type\":\""@);
        acc = acc + ",\"transaction_type\":\""@;
    }
    push_tt(out, &r.transaction_type);
    proof {
        lemma_assoc_step(o, acc, tt_name(r.transaction_type));
        acc = acc + tt_name(r.transaction_type);
    }
    out.push('"');
    proof {
        lemma_push_step(o, acc, '"');
        acc = acc + seq!['"'];
    }
    push_chars(out, ",\"graph\":");
    proof {
        lemma_assoc_step(o, acc, ",\"graph\":"@);
        acc = acc + ",\"graph\":"@;
    }
    push_opt_str(out, &r.graph);
    proof {
        lemma_assoc_step(o, acc, enc_opt_str(r@.graph));
        acc = acc + enc_opt_str(r@.graph);
    }
    push_chars(out, ",\"old_data\":");
    proof {
        lemma_assoc_step(o, acc, ",\"old_data\":"@);
        acc = acc + ",\"old_data\":"@;
    }
    push_opt_triples(out, &r.old_data);
    proof {
        lemma_assoc_step(o, acc, enc_opt_triples(r@.old_data));
        acc = acc + enc_opt_triples(r@.old_data);
    }
    push_chars(out, ",\"new_data\":");
    proof {
        lemma_assoc_step(o, acc, ",\"new_data\":"@);
        acc = acc + ",\"new_data\":"@;
    }
    push_opt_triples(out, &r.new_data);
    proof {
        lemma_assoc_step(o, acc, enc_opt_triples(r@.new_data));
        acc = acc + enc_opt_triples(r@.new_data);
    }
    push_chars(out, ",\"description\":");
    proof {
        lemma_assoc_step(o, acc, ",\"description\":"@);
        acc = acc + ",\"description\":"@;
    }
    push_jstr(out, &r.description);
    proof {
        lemma_assoc_step(o, acc, enc_jstr(r.description@));
        acc = acc + enc_jstr(r.description@);
    }
    push_chars(out, ",\"user_id\":");
    proof {
        lemma_assoc_step(o, acc, ",\"user_id\":"@);
        acc = acc + ",\"user_id\":"@;
    }
    push_opt_str(out, &r.user_id);
    proof {
        lemma_assoc_step(o, acc, enc_opt_str(r@.user_id));
        acc = acc + enc_opt_str(r@.user_id);
    }
    push_chars(out, ",\"user_name\":");
    proof {
        lemma_assoc_step(o, acc, ",\"user_name\":"@);
        acc = acc + ",\"user_name\":"@;
    }
    push_opt_str(out, &r.user_name);
    proof {
        lemma_assoc_step(o, acc, enc_opt_str(r@.user_name));
        acc = acc + enc_opt_str(r@.user_name);
    }
    out.push('}');
    proof {
        lemma_push_step(o, acc, '}');
        acc = acc + seq!['}'];
        assert(acc == spec_encode_record(r@));
    }
}

/// The canonical line for `r`, without a newline.
pub fn encode_record(r: &TransactionRecord) -> (s: String)
    ensures
        s@ == spec_encode_record(r@),
{
    let mut out: Vec<char> = Vec::new();
    push_record(&mut out, r);
    crate::text::string_from_chars(&out)
}

// ---------------------------------------------------------------------
// Parsing. Each `sp_*` function is the specification of one production;
// the matching `p_*` function is its executable mirror. A parse returns
// the parsed value and the position just past it, or nothing if the text
// deviates from the canonical form anywhere.
// ---------------------------------------------------------------------

/// An ASCII decimal digit.
pub open spec fn is_digit_char(c: char) -> bool {
    48 <= c as u32 <= 57
}

/// The numeric value of a digit character.
pub open spec fn digit_val(c: char) -> int {
    c as u32 - 48
}

/// The character denoted by a backslash escape code, if the code is one
/// the format uses.
pub open spec fn unescape_char(c: char) -> Option<char> {
    if c == '\\' {
        Some('\\')
    } else if c == '"' {
        Some('"')
    } else if c == 'n' {
        Some('\n')
    } else if c == 'r' {
        Some('\r')
    } else if c == 't' {
        Some('\t')
    } else {
        None
    }
}

/// Expects the exact text `lit` at position `i`.
pub open spec fn sp_lit(s: Seq<char>, i: int, lit: Seq<char>) -> Option<int> {
    if 0 <= i && i + lit.len() <= s.len() && s.subrange(i, i + lit.len()) == lit {
        Some(i + lit.len())
    } else {
        None
    }
}

/// The body of a quoted string, starting just after the opening quote:
/// unescapes until the closing quote.
pub open spec fn sp_string_body(s: Seq<char>, i: int) -> Option<(Seq<char>, int)>
    decreases s.len() - i,
{
    if i < 0 || i >= s.len() {
        None
    } else if s[i] == '"' {
        Some((Seq::empty(), i + 1))
    } else if s[i] == '\\' {
        if i + 1 < s.len() {
            match unescape_char(s[i + 1]) {
                Some(ch) => match sp_string_body(s, i + 2) {
                    Some(t) => Some((seq![ch] + t.0, t.1)),
                    None => None,
                },
                None => None,
            }
        } else {
            None
        }
    } else {
        match sp_string_body(s, i + 1) {
            Some(t) => Some((seq![s[i]] + t.0, t.1)),
            None => None,
        }
    }
}

/// A quoted string: an opening quote, then its body.
pub open spec fn sp_jstr(s: Seq<char>, i: int) -> Option<(Seq<char>, int)> {
    if 0 <= i < s.len() && s[i] == '"' {
        sp_string_body(s, i + 1)
    } else {
        None
    }
}

/// Digits from position `i` folded onto `acc`, failing on u64 overflow.
pub open spec fn sp_digits(s: Seq<char>, i: int, acc: int) -> Option<(u64, int)>
    decreases s.len() - i,
{
    if 0 <= i < s.len() && is_digit_char(s[i]) {
        if acc * 10 + digit_val(s[i]) <= u64::MAX {
            sp_digits(s, i + 1, acc * 10 + digit_val(s[i]))
        } else {
            None
        }
    } else {
        if 0 <= acc <= u64::MAX {
            Some((acc as u64, i))
        } else {
            None
        }
    }
}

/// An unsigned decimal number: at least one digit.
pub open spec fn sp_u64(s: Seq<char>, i: int) -> Option<(u64, int)> {
    if 0 <= i < s.len() && is_digit_char(s[i]) {
        sp_digits(s, i, 0)
    } else {
        None
    }
}

/// A quoted string or the word `null`.
pub open spec fn sp_opt_str(s: Seq<char>, i: int) -> Option<(Option<Seq<char>>, int)> {
    if 0 <= i < s.len() && s[i] == '"' {
        match sp_string_body(s, i + 1) {
            Some(t) => Some((Some(t.0), t.1)),
            None => None,
        }
    } else {
        match sp_lit(s, i, "null"@) {
            Some(j) => Some((None, j)),
            None => None,
        }
    }
}

/// An RDF node object in canonical field order.
pub open spec fn sp_node(s: Seq<char>, i: int) -> Option<(RdfNodeView, int)> {
    match sp_lit(s, i, "{\"type\":\""@) {
        Some(j) => match sp_string_body(s, j) {
            Some(tag) => if tag.0 == "uri"@ {
                match sp_lit(s, tag.1, ",\"value\":"@) {
                    Some(j2) => match sp_jstr(s, j2) {
                        Some(v) => match sp_lit(s, v.1, "}"@) {
                            Some(j3) => Some((RdfNodeView::Uri { value: v.0 }, j3)),
                            None => None,
                        },
                        None => None,
                    },
                    None => None,
                }
            } else if tag.0 == "literal"@ {
                match sp_lit(s, tag.1, ",\"value\":"@) {
                    Some(j2) => match sp_jstr(s, j2) {
                        Some(v) => match sp_lit(s, v.1, ",\"datatype\":"@) {
                            Some(j3) => match sp_opt_str(s, j3) {
                                Some(d) => match sp_lit(s, d.1, ",\"language\":"@) {
                                    Some(j4) => match sp_opt_str(s, j4) {
                                        Some(l) => match sp_lit(s, l.1, "}"@) {
                                            Some(j5) => Some(
                                                (
                                                    RdfNodeView::Literal {
                                                        value: v.0,
                                                        datatype: d.0,
                                                        language: l.0,
                                                    },
                                                    j5,
                                                ),
                                            ),
                                            None => None,
                                        },
                                        None => None,
                                    },
                                    None => None,
                                },
                                None => None,
                            },
                            None => None,
                        },
                        None => None,
                    },
                    None => None,
                }
            } else if tag.0 == "blank"@ {
                match sp_lit(s, tag.1, ",\"value\":"@) {
                    Some(j2) => match sp_jstr(s, j2) {
                        Some(v) => match sp_lit(s, v.1, "}"@) {
                            Some(j3) => Some((RdfNodeView::Blank { value: v.0 }, j3)),
                            None => None,
                        },
                        None => None,
                    },
                    None => None,
                }
            } else {
                None
            },
            None => None,
        },
        None => None,
    }
}

/// A triple object in canonical field order.
pub open spec fn sp_triple(s: Seq<char>, i: int) -> Option<(TripleView, int)> {
    match sp_lit(s, i, "{\"subject\":"@) {
        Some(j) => match sp_jstr(s, j) {
            Some(su) => match sp_lit(s, su.1, ",\"predicate\":"@) {
                Some(j2) => match sp_jstr(s, j2) {
                    Some(pr) => match sp_lit(s, pr.1, ",\"object\":"@) {
                        Some(j3) => match sp_node(s, j3) {
                            Some(ob) => match sp_lit(s, ob.1, ",\"graph\":"@) {
                                Some(j4) => match sp_opt_str(s, j4) {
                                    Some(g) => match sp_lit(s, g.1, "}"@) {
                                        Some(j5) => Some(
                                            (
                                                TripleView {
                                                    subject: su.0,
                                                    predicate: pr.0,
                                                    object: ob.0,
                                                    graph: g.0,
                                                },
                                                j5,
                                            ),
                                        ),
                                        None => None,
                                    },
                                    None => None,
                                },
                                None => None,
                            },
                            None => None,
                        },
                        None => None,
                    },
                    None => None,
                },
                None => None,
            },
            None => None,
        },
        None => None,
    }
}

/// One or more comma-separated triples, ending at a closing bracket.
pub open spec fn sp_triple_items(s: Seq<char>, i: int) -> Option<(Seq<TripleView>, int)>
    decreases s.len() - i,
{
    match sp_triple(s, i) {
        Some(t) => if i < t.1 && t.1 < s.len() && s[t.1] == ',' {
            match sp_triple_items(s, t.1 + 1) {
                Some(rest) => Some((seq![t.0] + rest.0, rest.1)),
                None => None,
            }
        } else if t.1 < s.len() && s[t.1] == ']' {
            Some((seq![t.0], t.1 + 1))
        } else {
            None
        },
        None => None,
    }
}

/// A bracketed triple array.
pub open spec fn sp_triples(s: Seq<char>, i: int) -> Option<(Seq<TripleView>, int)> {
    if 0 <= i < s.len() && s[i] == '[' {
        if i + 1 < s.len() && s[i + 1] == ']' {
            Some((Seq::empty(), i + 2))
        } else {
            sp_triple_items(s, i + 1)
        }
    } else {
        None
    }
}

/// A triple array or the word `null`.
pub open spec fn sp_opt_triples(s: Seq<char>, i: int) -> Option<(Option<Seq<TripleView>>, int)> {
    if 0 <= i < s.len() && s[i] == '[' {
        match sp_triples(s, i) {
            Some(ts) => Some((Some(ts.0), ts.1)),
            None => None,
        }
    } else {
        match sp_lit(s, i, "null"@) {
            Some(j) => Some((None, j)),
            None => None,
        }
    }
}

/// The transaction type with the given serialized name, if any.
pub open spec fn tt_of_name(n: Seq<char>) -> Option<TransactionType> {
    if n == "AddTriple"@ {
        Some(TransactionType::AddTriple)
    } else if n == "DeleteTriple"@ {
        Some(TransactionType::DeleteTriple)
    } else if n == "ReplaceTriple"@ {
        Some(TransactionType::ReplaceTriple)
    } else if n == "AddTriplesBatch"@ {
        Some(TransactionType::AddTriplesBatch)
    } else if n == "DeleteTriplesBatch"@ {
        Some(TransactionType::DeleteTriplesBatch)
    } else if n == "DropGraph"@ {
        Some(TransactionType::DropGraph)
    } else if n == "ImportData"@ {
        Some(TransactionType::ImportData)
    } else {
        None
    }
}

/// A whole record line in canonical field order, consuming the entire
/// text.
pub open spec fn sp_record(s: Seq<char>) -> Option<TransactionRecordView> {
    match sp_lit(s, 0, "{\"id\":"@) {
        Some(j) => match sp_jstr(s, j) {
            Some(id) => match sp_lit(s, id.1, ",\"timestamp\":"@) {
                Some(j2) => match sp_u64(s, j2) {
                    Some(ts) => match sp_lit(s, ts.1, ",\"transaction_type\":\""@) {
                        Some(j3) => match sp_string_body(s, j3) {
                            Some(name) => match tt_of_name(name.0) {
                                Some(tt) => match sp_lit(s, name.1, ",\"graph\":"@) {
                                    Some(j4) => match sp_opt_str(s, j4) {
                                        Some(g) => match sp_lit(s, g.1, ",\"old_data\":"@) {
                                            Some(j5) => match sp_opt_triples(s, j5) {
                                                Some(od) => match sp_lit(
                                                    s,
                                                    od.1,
                                                    ",\"new_data\":"@,
                                                ) {
                                                    Some(j6) => match sp_opt_triples(s, j6) {
                                                        Some(nd) => match sp_lit(
                                                            s,
                                                            nd.1,
                                                            ",\"description\":"@,
                                                        ) {
                                                            Some(j7) => match sp_jstr(s, j7) {
                                                                Some(de) => match sp_lit(
                                                                    s,
                                                                    de.1,
                                                                    ",\"user_id\":"@,
                                                                ) {
                                                                    Some(j8) => match sp_opt_str(
                                                                        s,
                                                                        j8,
                                                                    ) {
                                                                        Some(ui) => match sp_lit(
                                                                            s,
                                                                            ui.1,
                                                                            ",\"user_name\":"@,
                                                                        ) {
                                                                            Some(j9) => match
                                                                                sp_opt_str(s, j9) {
                                                                                Some(un) => match
                                                                                    sp_lit(
                                                                                    s,
                                                                                    un.1,
                                                                                    "}"@,
                                                                                ) {
                                                                                    Some(j10) => if
                                                                                        j10
                                                                                        == s.len() {
                                                                                        Some(
                                                                                            TransactionRecordView {
                                                                                                id: id.0,
                                                                                                timestamp: ts.0,
                                                                                                transaction_type: tt,
                                                                                                graph: g.0,
                                                                                                old_data: od.0,
                                                                                                new_data: nd.0,
                                                                                                description: de.0,
                                                                                                user_id: ui.0,
                                                                                                user_name: un.0,
                                                                                            },
                                                                                        )
                                                                                    } else {
                                                                                        None
                                                                                    },
                                                                                    None => None,
                                                                                },
                                                                                None => None,
                                                                            },
                                                                            None => None,
                                                                        },
                                                                        None => None,
                                                                    },
                                                                    None => None,
                                                                },
                                                                None => None,
                                                            },
                                                            None => None,
                                                        },
                                                        None => None,
                                                    },
                                                    None => None,
                                                },
                                                None => None,
                                            },
                                            None => None,
                                        },
                                        None => None,
                                    },
                                    None => None,
                                },
                                None => None,
                            },
                            None => None,
                        },
                        None => None,
                    },
                    None => None,
                },
                None => None,
            },
            None => None,
        },
        None => None,
    }
}

fn p_lit(s: &Vec<char>, i: usize, lit: &str) -> (r: Option<usize>)
    ensures
        match r {
            Some(j) => sp_lit(s@, i as int, lit@) == Some(j as int) && j <= s@.len(),
            None => sp_lit(s@, i as int, lit@) is None,
        },
{
    let lc = chars_of(lit);
    let n = s.len();
    if i > n || lc.len() > n - i {
        return None;
    }
    let mut k: usize = 0;
    while k < lc.len()
        invariant
            0 <= k <= lc@.len(),
            i + lc@.len() <= n,
            n == s@.len(),
            lc@ == lit@,
            forall|m: int| 0 <= m < k ==> s@[i + m] == lc@[m],
        decreases lc@.len() - k,
    {
        if s[i + k] != lc[k] {
            proof {
                assert(s@.subrange(i as int, i + lit@.len()) != lit@) by {
                    if s@.subrange(i as int, i + lit@.len()) == lit@ {
                        assert(s@.subrange(i as int, i + lit@.len())[k as int] == s@[i + k]);
                    }
                }
            }
            return None;
        }
        k = k + 1;
    }
    proof {
        assert(s@.subrange(i as int, i + lit@.len()) =~= lit@);
    }
    Some(i + lc.len())
}

fn p_string_body(s: &Vec<char>, i: usize) -> (r: Option<(Vec<char>, usize)>)
    ensures
        match r {
            Some(t) => sp_string_body(s@, i as int) == Some((t.0@, t.1 as int)) && t.1 <= s@.len(),
            None => sp_string_body(s@, i as int) is None,
        },
    decreases s@.len() - i,
{
    if i >= s.len() {
        return None;
    }
    let c = s[i];
    if c == '"' {
        return Some((Vec::new(), i + 1));
    }
    if c == '\\' {
        if i + 1 >= s.len() {
            return None;
        }
        let code = s[i + 1];
        let ch: char = if code == '\\' {
            '\\'
        } else if code == '"' {
            '"'
        } else if code == 'n' {
            '\n'
        } else if code == 'r' {
            '\r'
        } else if code == 't' {
            '\t'
        } else {
            return None;
        };
        match p_string_body(s, i + 2) {
            Some((tail, j)) => {
                let mut v: Vec<char> = Vec::new();
                v.push(ch);
                let mut tail = tail;
                v.append(&mut tail);
                proof {
                    assert(v@ =~= seq![ch] + sp_string_body(s@, i + 2)->Some_0.0);
                }
                Some((v, j))
            },
            None => None,
        }
    } else {
        match p_string_body(s, i + 1) {
            Some((tail, j)) => {
                let mut v: Vec<char> = Vec::new();
                v.push(c);
                let mut tail = tail;
                v.append(&mut tail);
                proof {
                    assert(v@ =~= seq![c] + sp_string_body(s@, i + 1)->Some_0.0);
                }
                Some((v, j))
            },
            None => None,
        }
    }
}

fn p_jstr(s: &Vec<char>, i: usize) -> (r: Option<(Vec<char>, usize)>)
    ensures
        match r {
            Some(t) => sp_jstr(s@, i as int) == Some((t.0@, t.1 as int)) && t.1 <= s@.len(),
            None => sp_jstr(s@, i as int) is None,
        },
{
    if i < s.len() && s[i] == '"' {
        p_string_body(s, i + 1)
    } else {
        None
    }
}

fn p_digits(s: &Vec<char>, i: usize, acc: u64) -> (r: Option<(u64, usize)>)
    requires
        i <= s@.len(),
    ensures
        match r {
            Some(t) => sp_digits(s@, i as int, acc as int) == Some((t.0, t.1 as int)) && t.1
                <= s@.len(),
            None => sp_digits(s@, i as int, acc as int) is None,
        },
    decreases s@.len() - i,
{
    if i < s.len() {
        let code = s[i] as u32;
        if 48 <= code && code <= 57 {
            let d = (code - 48) as u64;
            if acc <= (u64::MAX - d) / 10 {
                proof {
                    assert(acc * 10 + d <= u64::MAX) by (nonlinear_arith)
                        requires
                            acc <= (u64::MAX - d) / 10,
                            d <= 9,
                    ;
                }
                return p_digits(s, i + 1, acc * 10 + d);
            } else {
                proof {
                    assert(acc as int * 10 + d > u64::MAX) by (nonlinear_arith)
                        requires
                            acc > (u64::MAX - d) / 10,
                            0 <= d <= 9,
                            acc <= u64::MAX,
                    ;
                }
                return None;
            }
        }
    }
    Some((acc, i))
}

fn p_u64(s: &Vec<char>, i: usize) -> (r: Option<(u64, usize)>)
    ensures
        match r {
            Some(t) => sp_u64(s@, i as int) == Some((t.0, t.1 as int)) && t.1 <= s@.len(),
            None => sp_u64(s@, i as int) is None,
        },
{
    if i < s.len() {
        let code = s[i] as u32;
        if 48 <= code && code <= 57 {
            return p_digits(s, i, 0);
        }
    }
    None
}

fn p_opt_str(s: &Vec<char>, i: usize) -> (r: Option<(Option<String>, usize)>)
    ensures
        match r {
            Some(t) => sp_opt_str(s@, i as int) == Some(
                (
                    match t.0 {
                        Some(v) => Some(v@),
                        None => None,
                    },
                    t.1 as int,
                ),
            ) && t.1 <= s@.len(),
            None => sp_opt_str(s@, i as int) is None,
        },
{
    if i < s.len() && s[i] == '"' {
        match p_string_body(s, i + 1) {
            Some((v, j)) => Some((Some(string_from_chars(&v)), j)),
            None => None,
        }
    } else {
        match p_lit(s, i, "null") {
            Some(j) => Some((None, j)),
            None => None,
        }
    }
}

fn p_node(s: &Vec<char>, i: usize) -> (r: Option<(RdfNode, usize)>)
    ensures
        match r {
            Some(t) => sp_node(s@, i as int) == Some((t.0@, t.1 as int)) && t.1 <= s@.len(),
            None => sp_node(s@, i as int) is None,
        },
{
    let j = match p_lit(s, i, "{\"type\":\"") {
        Some(j) => j,
        None => {
            return None;
        },
    };
    let (tag, jt) = match p_string_body(s, j) {
        Some(t) => t,
        None => {
            return None;
        },
    };
    let tag_s = string_from_chars(&tag);
    if crate::text::str_eq(tag_s.as_str(), "uri") {
        proof {
            assert(tag@ == "uri"@);
        }
        let j2 = match p_lit(s, jt, ",\"value\":") {
            Some(j2) => j2,
            None => {
                return None;
            },
        };
        let (v, j3) = match p_jstr(s, j2) {
            Some(t) => t,
            None => {
                return None;
            },
        };
        let j4 = match p_lit(s, j3, "}") {
            Some(j4) => j4,
            None => {
                return None;
            },
        };
        Some((RdfNode::Uri { value: string_from_chars(&v) }, j4))
    } else if crate::text::str_eq(tag_s.as_str(), "literal") {
        proof {
            assert(tag@ == "literal"@);
        }
        let j2 = match p_lit(s, jt, ",\"value\":") {
            Some(j2) => j2,
            None => {
                return None;
            },
        };
        let (v, j3) = match p_jstr(s, j2) {
            Some(t) => t,
            None => {
                return None;
            },
        };
        let j4 = match p_lit(s, j3, ",\"datatype\":") {
            Some(j4) => j4,
            None => {
                return None;
            },
        };
        let (d, j5) = match p_opt_str(s, j4) {
            Some(t) => t,
            None => {
                return None;
            },
        };
        let j6 = match p_lit(s, j5, ",\"language\":") {
            Some(j6) => j6,
            None => {
                return None;
            },
        };
        let (l, j7) = match p_opt_str(s, j6) {
            Some(t) => t,
            None => {
                return None;
            },
        };
        let j8 = match p_lit(s, j7, "}") {
            Some(j8) => j8,
            None => {
                return None;
            },
        };
        Some(
            (
                RdfNode::Literal { value: string_from_chars(&v), datatype: d, language: l },
                j8,
            ),
        )
    } else if crate::text::str_eq(tag_s.as_str(), "blank") {
        proof {
            assert(tag@ == "blank"@);
        }
        let j2 = match p_lit(s, jt, ",\"value\":") {
            Some(j2) => j2,
            None => {
                return None;
            },
        };
        let (v, j3) = match p_jstr(s, j2) {
            Some(t) => t,
            None => {
                return None;
            },
        };
        let j4 = match p_lit(s, j3, "}") {
            Some(j4) => j4,
            None => {
                return None;
            },
        };
        Some((RdfNode::Blank { value: string_from_chars(&v) }, j4))
    } else {
        proof {
            assert(tag@ != "uri"@ && tag@ != "literal"@ && tag@ != "blank"@);
        }
        None
    }
}

fn p_triple(s: &Vec<char>, i: usize) -> (r: Option<(Triple, usize)>)
    ensures
        match r {
            Some(t) => sp_triple(s@, i as int) == Some((t.0@, t.1 as int)) && t.1 <= s@.len(),
            None => sp_triple(s@, i as int) is None,
        },
{
    let j = match p_lit(s, i, "{\"subject\":") {
        Some(j) => j,
        None => {
            return None;
        },
    };
    let (su, j2) = match p_jstr(s, j) {
        Some(t) => t,
        None => {
            return None;
        },
    };
    let j3 = match p_lit(s, j2, ",\"predicate\":") {
        Some(j3) => j3,
        None => {
            return None;
        },
    };
    let (pr, j4) = match p_jstr(s, j3) {
        Some(t) => t,
        None => {
            return None;
        },
    };
    let j5 = match p_lit(s, j4, ",\"object\":") {
        Some(j5) => j5,
        None => {
            return None;
        },
    };
    let (ob, j6) = match p_node(s, j5) {
        Some(t) => t,
        None => {
            return None;
        },
    };
    let j7 = match p_lit(s, j6, ",\"graph\":") {
        Some(j7) => j7,
        None => {
            return None;
        },
    };
    let (g, j8) = match p_opt_str(s, j7) {
        Some(t) => t,
        None => {
            return None;
        },
    };
    let j9 = match p_lit(s, j8, "}") {
        Some(j9) => j9,
        None => {
            return None;
        },
    };
    Some(
        (
            Triple {
                subject: string_from_chars(&su),
                predicate: string_from_chars(&pr),
                object: ob,
                graph: g,
            },
            j9,
        ),
    )
}

fn p_triple_items(s: &Vec<char>, i: usize) -> (r: Option<(Vec<Triple>, usize)>)
    ensures
        match r {
            Some(t) => sp_triple_items(s@, i as int) == Some(
                (spec_triple_views(t.0@), t.1 as int),
            ) && t.1 <= s@.len(),
            None => sp_triple_items(s@, i as int) is None,
        },
    decreases s@.len() - i,
{
    let (t0, j) = match p_triple(s, i) {
        Some(t) => t,
        None => {
            return None;
        },
    };
    let ghost tv = t0@;
    if i < j && j < s.len() && s[j] == ',' {
        match p_triple_items(s, j + 1) {
            Some((rest, j2)) => {
                let ghost rv = rest@;
                let mut v: Vec<Triple> = Vec::new();
                v.push(t0);
                let mut rest = rest;
                v.append(&mut rest);
                proof {
                    assert(v@.len() == 1 + rv.len());
                    assert(v@[0]@ == tv);
                    assert(forall|k: int| 0 <= k < rv.len() ==> v@[k + 1] == rv[k]);
                    assert(spec_triple_views(v@) =~= seq![tv] + spec_triple_views(rv));
                }
                Some((v, j2))
            },
            None => None,
        }
    } else if j < s.len() && s[j] == ']' {
        let mut v: Vec<Triple> = Vec::new();
        v.push(t0);
        proof {
            assert(spec_triple_views(v@) =~= seq![tv]);
        }
        Some((v, j + 1))
    } else {
        None
    }
}

fn p_opt_triples(s: &Vec<char>, i: usize) -> (r: Option<(Option<Vec<Triple>>, usize)>)
    ensures
        match r {
            Some(t) => sp_opt_triples(s@, i as int) == Some(
                (
                    match t.0 {
                        Some(ts) => Some(spec_triple_views(ts@)),
                        None => None,
                    },
                    t.1 as int,
                ),
            ) && t.1 <= s@.len(),
            None => sp_opt_triples(s@, i as int) is None,
        },
{
    if i < s.len() && s[i] == '[' {
        if i + 1 < s.len() && s[i + 1] == ']' {
            let v: Vec<Triple> = Vec::new();
            proof {
                assert(spec_triple_views(v@) =~= Seq::<TripleView>::empty());
            }
            Some((Some(v), i + 2))
        } else {
            match p_triple_items(s, i + 1) {
                Some((ts, j)) => Some((Some(ts), j)),
                None => None,
            }
        }
    } else {
        match p_lit(s, i, "null") {
            Some(j) => Some((None, j)),
            None => None,
        }
    }
}

fn p_tt(name: &Vec<char>) -> (r: Option<TransactionType>)
    ensures
        r == tt_of_name(name@),
{
    let n = string_from_chars(name);
    if crate::text::str_eq(n.as_str(), "AddTriple") {
        Some(TransactionType::AddTriple)
    } else if crate::text::str_eq(n.as_str(), "DeleteTriple") {
        Some(TransactionType::DeleteTriple)
    } else if crate::text::str_eq(n.as_str(), "ReplaceTriple") {
        Some(TransactionType::ReplaceTriple)
    } else if crate::text::str_eq(n.as_str(), "AddTriplesBatch") {
        Some(TransactionType::AddTriplesBatch)
    } else if crate::text::str_eq(n.as_str(), "DeleteTriplesBatch") {
        Some(TransactionType::DeleteTriplesBatch)
    } else if crate::text::str_eq(n.as_str(), "DropGraph") {
        Some(TransactionType::DropGraph)
    } else if crate::text::str_eq(n.as_str(), "ImportData") {
        Some(TransactionType::ImportData)
    } else {
        None
    }
}

/// Parses one log line in the canonical form; anything else yields
/// nothing, which readers treat as a line to skip.
pub fn parse_record(line: &Vec<char>) -> (r: Option<TransactionRecord>)
    ensures
        match r {
            Some(rec) => sp_record(line@) == Some(rec@),
            None => sp_record(line@) is None,
        },
{
    let s = line;
    let j = match p_lit(s, 0, "{\"id\":") {
        Some(j) => j,
        None => {
            return None;
        },
    };
    let (id, j2) = match p_jstr(s, j) {
        Some(t) => t,
        None => {
            return None;
        },
    };
    let j3 = match p_lit(s, j2, ",\"timestamp\":") {
        Some(j3) => j3,
        None => {
            return None;
        },
    };
    let (ts, j4) = match p_u64(s, j3) {
        Some(t) => t,
        None => {
            return None;
        },
    };
    let j5 = match p_lit(s, j4, ",\"transaction_type\":\"") {
        Some(j5) => j5,
        None => {
            return None;
        },
    };
    let (name, j6) = match p_string_body(s, j5) {
        Some(t) => t,
        None => {
            return None;
        },
    };
    let tt = match p_tt(&name) {
        Some(tt) => tt,
        None => {
            return None;
        },
    };
    let j7 = match p_lit(s, j6, ",\"graph\":") {
        Some(j7) => j7,
        None => {
            return None;
        },
    };
    let (g, j8) = match p_opt_str(s, j7) {
        Some(t) => t,
        None => {
            return None;
        },
    };
    let j9 = match p_lit(s, j8, ",\"old_data\":") {
        Some(j9) => j9,
        None => {
            return None;
        },
    };
    let (od, j10) = match p_opt_triples(s, j9) {
        Some(t) => t,
        None => {
            return None;
        },
    };
    let j11 = match p_lit(s, j10, ",\"new_data\":") {
        Some(j11) => j11,
        None => {
            return None;
        },
    };
    let (nd, j12) = match p_opt_triples(s, j11) {
        Some(t) => t,
        None => {
            return None;
        },
    };
    let j13 = match p_lit(s, j12, ",\"description\":") {
        Some(j13) => j13,
        None => {
            return None;
        },
    };
    let (de, j14) = match p_jstr(s, j13) {
        Some(t) => t,
        None => {
            return None;
        },
    };
    let j15 = match p_lit(s, j14, ",\"user_id\":") {
        Some(j15) => j15,
        None => {
            return None;
        },
    };
    let (ui, j16) = match p_opt_str(s, j15) {
        Some(t) => t,
        None => {
            return None;
        },
    };
    let j17 = match p_lit(s, j16, ",\"user_name\":") {
        Some(j17) => j17,
        None => {
            return None;
        },
    };
    let (un, j18) = match p_opt_str(s, j17) {
        Some(t) => t,
        None => {
            return None;
        },
    };
    let j19 = match p_lit(s, j18, "}") {
        Some(j19) => j19,
        None => {
            return None;
        },
    };
    if j19 != s.len() {
        return None;
    }
    Some(
        TransactionRecord {
            id: string_from_chars(&id),
            timestamp: ts,
            transaction_type: tt,
            graph: g,
            old_data: od,
            new_data: nd,
            description: string_from_chars(&de),
            user_id: ui,
            user_name: un,
        },
    )
}

// ---------------------------------------------------------------------
// The parser is the inverse of the encoder: a canonical line parses back
// to exactly the record it was written for. The lemmas below walk the
// grammar; `lemma_parse_encode_record` is the statement for whole lines.
// ---------------------------------------------------------------------

/// A text of length `a.len() + b.len()` that equals `a + b` carries `a`
/// and then `b`.
proof fn lemma_split_at(s: Seq<char>, i: int, a: Seq<char>, b: Seq<char>)
    requires
        0 <= i,
        i + a.len() + b.len() <= s.len(),
        s.subrange(i, i + a.len() + b.len()) == a + b,
    ensures
        s.subrange(i, i + a.len()) == a,
        s.subrange(i + a.len(), i + a.len() + b.len()) == b,
{
    assert forall|k: int| 0 <= k < a.len() + b.len() implies s[i + k] == (a + b)[k] by {
        assert(s.subrange(i, i + a.len() + b.len())[k] == s[i + k]);
    }
    assert(s.subrange(i, i + a.len()) =~= a);
    assert forall|k: int| 0 <= k < b.len() implies s.subrange(
        i + a.len(),
        i + a.len() + b.len(),
    )[k] == b[k] by {
        assert(s[i + (a.len() + k)] == (a + b)[a.len() + k]);
    }
    assert(s.subrange(i + a.len(), i + a.len() + b.len()) =~= b);
}

/// Escaping changes nothing in a text without special characters.
proof fn lemma_escape_plain(s: Seq<char>)
    requires
        forall|j: int|
            0 <= j < s.len() ==> (#[trigger] s[j]) != '\\' && s[j] != '"' && s[j] != '\n' && s[j]
                != '\r' && s[j] != '\t',
    ensures
        spec_escape(s) == s,
    decreases s.len(),
{
    if s.len() == 0 {
        assert(spec_escape(s) =~= s);
    } else {
        assert(forall|j: int|
            0 <= j < s.drop_first().len() ==> (#[trigger] s.drop_first()[j]) == s[j + 1]);
        lemma_escape_plain(s.drop_first());
        assert(spec_escape(s) == seq![s[0]] + s.drop_first());
        assert(seq![s[0]] + s.drop_first() =~= s);
    }
}

/// A string body consisting of the escape of `v` and a closing quote
/// parses back to `v`.
proof fn lemma_rt_string_body(s: Seq<char>, i: int, v: Seq<char>)
    requires
        0 <= i,
        i + spec_escape(v).len() + 1 <= s.len(),
        s.subrange(i, i + spec_escape(v).len() + 1) == spec_escape(v) + seq!['"'],
    ensures
        sp_string_body(s, i) == Some((v, i + spec_escape(v).len() + 1)),
    decreases v.len(),
{
    if v.len() == 0 {
        assert(spec_escape(v).len() == 0);
        assert(s.subrange(i, i + 1)[0] == s[i]);
        assert(s[i] == '"');
        assert(sp_string_body(s, i) == Some((Seq::<char>::empty(), i + 1)));
        assert(v =~= Seq::<char>::empty());
    } else {
        let c = v[0];
        let tail = v.drop_first();
        assert(spec_escape(v) == spec_escape_char(c) + spec_escape(tail));
        let m = spec_escape_char(c).len() as int;
        assert((spec_escape_char(c) + spec_escape(tail)) + seq!['"'] =~= spec_escape_char(c) + (
        spec_escape(tail) + seq!['"']));
        lemma_split_at(s, i, spec_escape_char(c), spec_escape(tail) + seq!['"']);
        assert(s.subrange(i, i + m)[0] == s[i]);
        if c == '\\' || c == '"' || c == '\n' || c == '\r' || c == '\t' {
            assert(m == 2);
            assert(s[i] == '\\');
            assert(s.subrange(i, i + m)[1] == s[i + 1]);
            assert(s[i + 1] == spec_escape_char(c)[1]);
            assert(unescape_char(s[i + 1]) == Some(c));
            lemma_rt_string_body(s, i + 2, tail);
            assert(sp_string_body(s, i) == Some((seq![c] + tail, i + 2 + spec_escape(tail).len()
                + 1)));
            assert(seq![c] + tail =~= v);
        } else {
            assert(m == 1);
            assert(s[i] == c);
            lemma_rt_string_body(s, i + 1, tail);
            assert(sp_string_body(s, i) == Some((seq![c] + tail, i + 1 + spec_escape(tail).len()
                + 1)));
            assert(seq![c] + tail =~= v);
        }
    }
}

/// A quoted string written by the encoder parses back to its value.
proof fn lemma_rt_jstr(s: Seq<char>, i: int, v: Seq<char>)
    requires
        0 <= i,
        i + enc_jstr(v).len() <= s.len(),
        s.subrange(i, i + enc_jstr(v).len()) == enc_jstr(v),
    ensures
        sp_jstr(s, i) == Some((v, i + enc_jstr(v).len())),
{
    assert(enc_jstr(v) =~= seq!['"'] + (spec_escape(v) + seq!['"']));
    lemma_split_at(s, i, seq!['"'], spec_escape(v) + seq!['"']);
    assert(s.subrange(i, i + 1)[0] == s[i]);
    assert(s[i] == '"');
    lemma_rt_string_body(s, i + 1, v);
}

/// Ten to the `k`.
spec fn pow10(k: int) -> int
    decreases k,
{
    if k <= 0 {
        1
    } else {
        10 * pow10(k - 1)
    }
}

proof fn lemma_pow10_pos(k: int)
    ensures
        pow10(k) >= 1,
    decreases k,
{
    if k > 0 {
        lemma_pow10_pos(k - 1);
    }
}

/// The number a digit text denotes, leftmost digit most significant.
spec fn val_head(ds: Seq<char>) -> int
    decreases ds.len(),
{
    if ds.len() == 0 {
        0
    } else {
        digit_val(ds[0]) * pow10(ds.len() - 1) + val_head(ds.drop_first())
    }
}

proof fn lemma_val_head_push(ds: Seq<char>, d: char)
    ensures
        val_head(ds.push(d)) == val_head(ds) * 10 + digit_val(d),
    decreases ds.len(),
{
    if ds.len() == 0 {
        assert(ds.push(d).drop_first() =~= Seq::<char>::empty());
        assert(ds.push(d)[0] == d);
        assert(val_head(Seq::<char>::empty()) == 0);
        assert(pow10(0) == 1);
        assert(val_head(ds.push(d)) == digit_val(d) * pow10(0));
    } else {
        assert(ds.push(d).drop_first() =~= ds.drop_first().push(d));
        assert(ds.push(d)[0] == ds[0]);
        lemma_val_head_push(ds.drop_first(), d);
        let a = digit_val(ds[0]);
        let p = pow10(ds.len() - 1);
        let rest = val_head(ds.drop_first());
        assert(val_head(ds.push(d)) == a * pow10(ds.len() as int) + (rest * 10 + digit_val(d)));
        assert(pow10(ds.len() as int) == 10 * p);
        assert(a * (10 * p) == (a * p) * 10) by (nonlinear_arith);
        assert(a * (10 * p) + (rest * 10 + digit_val(d)) == (a * p + rest) * 10 + digit_val(d))
            by (nonlinear_arith);
    }
}

proof fn lemma_val_head_bounds(ds: Seq<char>)
    requires
        forall|j: int| 0 <= j < ds.len() ==> is_digit_char(#[trigger] ds[j]),
    ensures
        val_head(ds) >= 0,
        ds.len() > 0 ==> val_head(ds) >= digit_val(ds[0]) * pow10(ds.len() - 1),
    decreases ds.len(),
{
    if ds.len() == 0 {
    } else {
        assert(forall|j: int|
            0 <= j < ds.drop_first().len() ==> (#[trigger] ds.drop_first()[j]) == ds[j + 1]);
        lemma_val_head_bounds(ds.drop_first());
        lemma_pow10_pos(ds.len() - 1);
        assert(digit_val(ds[0]) * pow10(ds.len() - 1) >= 0) by (nonlinear_arith)
            requires
                digit_val(ds[0]) >= 0,
                pow10(ds.len() - 1) >= 1,
        ;
    }
}

/// The decimal rendering of `n` consists of digits and denotes `n`.
proof fn lemma_dec_digits_val(n: nat)
    ensures
        spec_dec_digits(n).len() >= 1,
        forall|j: int|
            0 <= j < spec_dec_digits(n).len() ==> is_digit_char(#[trigger] spec_dec_digits(n)[j]),
        val_head(spec_dec_digits(n)) == n,
    decreases n,
{
    if n < 10 {
        assert(spec_dec_digits(n) =~= seq![crate::text::spec_digit_char(n as int)]);
        assert(spec_dec_digits(n)[0] == crate::text::spec_digit_char(n as int));
        assert(is_digit_char(crate::text::spec_digit_char(n as int)));
        assert(val_head(spec_dec_digits(n)) == digit_val(crate::text::spec_digit_char(n as int))
            * pow10(0) + val_head(spec_dec_digits(n).drop_first()));
        assert(spec_dec_digits(n).drop_first() =~= Seq::<char>::empty());
        assert(digit_val(crate::text::spec_digit_char(n as int)) == n);
    } else {
        lemma_dec_digits_val(n / 10);
        let ds = spec_dec_digits(n / 10);
        let d = crate::text::spec_digit_char((n % 10) as int);
        assert(spec_dec_digits(n) == ds.push(d));
        assert(forall|j: int|
            0 <= j < ds.push(d).len() ==> is_digit_char(#[trigger] ds.push(d)[j]));
        lemma_val_head_push(ds, d);
        assert(digit_val(d) == n % 10);
        assert((n / 10) * 10 + n % 10 == n) by {
            vstd::arithmetic::div_mod::lemma_fundamental_div_mod(n as int, 10);
        }
    }
}

/// Folding digits left to right reaches the denoted value.
proof fn lemma_rt_digits(s: Seq<char>, i: int, len: int, acc: int)
    requires
        0 <= i,
        0 <= len,
        i + len <= s.len(),
        forall|j: int| i <= j < i + len ==> is_digit_char(#[trigger] s[j]),
        i + len == s.len() || !is_digit_char(s[i + len]),
        0 <= acc,
        acc * pow10(len) + val_head(s.subrange(i, i + len)) <= u64::MAX,
    ensures
        sp_digits(s, i, acc) == Some(
            ((acc * pow10(len) + val_head(s.subrange(i, i + len))) as u64, i + len),
        ),
    decreases len,
{
    let ds = s.subrange(i, i + len);
    assert(forall|j: int| 0 <= j < ds.len() ==> #[trigger] ds[j] == s[i + j]);
    lemma_val_head_bounds(ds);
    if len == 0 {
        assert(ds =~= Seq::<char>::empty());
        assert(pow10(0) == 1);
    } else {
        let d = digit_val(s[i]);
        let ds2 = s.subrange(i + 1, i + len);
        assert(forall|j: int| 0 <= j < ds2.len() ==> #[trigger] ds2[j] == s[i + 1 + j]);
        assert(ds.drop_first() =~= ds2);
        lemma_val_head_bounds(ds2);
        lemma_pow10_pos(len - 1);
        let p = pow10(len - 1);
        assert(pow10(len) == 10 * p);
        // The digits seen so far never overflow: the whole number fits.
        assert(val_head(ds) == d * p + val_head(ds2));
        assert(acc * (10 * p) + (d * p + val_head(ds2)) == (acc * 10 + d) * p + val_head(ds2))
            by (nonlinear_arith);
        assert(acc * 10 + d <= (acc * 10 + d) * p + val_head(ds2)) by (nonlinear_arith)
            requires
                p >= 1,
                acc * 10 + d >= 0,
                val_head(ds2) >= 0,
        ;
        lemma_rt_digits(s, i + 1, len - 1, acc * 10 + d);
    }
}

/// The decimal rendering of `n`, followed by a non-digit, parses back to
/// `n`.
proof fn lemma_rt_u64(s: Seq<char>, i: int, n: u64)
    requires
        0 <= i,
        i + spec_dec_digits(n as nat).len() <= s.len(),
        s.subrange(i, i + spec_dec_digits(n as nat).len()) == spec_dec_digits(n as nat),
        i + spec_dec_digits(n as nat).len() == s.len() || !is_digit_char(
            s[i + spec_dec_digits(n as nat).len()],
        ),
    ensures
        sp_u64(s, i) == Some((n, i + spec_dec_digits(n as nat).len())),
{
    let dec = spec_dec_digits(n as nat);
    lemma_dec_digits_val(n as nat);
    assert(forall|j: int| 0 <= j < dec.len() ==> #[trigger] s[i + j] == dec[j]) by {
        assert(forall|j: int|
            0 <= j < dec.len() ==> #[trigger] s.subrange(i, i + dec.len())[j] == s[i + j]);
    }
    assert(forall|j: int| i <= j < i + dec.len() ==> is_digit_char(#[trigger] s[j])) by {
        assert(forall|j: int| i <= j < i + dec.len() ==> s[j] == dec[j - i]);
    }
    lemma_rt_digits(s, i, dec.len() as int, 0);
    assert(s.subrange(i, i + dec.len()) == dec);
    assert(0 * pow10(dec.len() as int) == 0) by (nonlinear_arith);
    assert(is_digit_char(s[i])) by {
        assert(s[i] == dec[0]);
    }
}

/// An optional string written by the encoder parses back to its value.
proof fn lemma_rt_opt_str(s: Seq<char>, i: int, v: Option<Seq<char>>)
    requires
        0 <= i,
        i + enc_opt_str(v).len() <= s.len(),
        s.subrange(i, i + enc_opt_str(v).len()) == enc_opt_str(v),
    ensures
        sp_opt_str(s, i) == Some((v, i + enc_opt_str(v).len())),
{
    reveal_strlit("null");
    match v {
        None => {
            assert(s.subrange(i, i + 4)[0] == s[i]);
            assert(s[i] == 'n');
        },
        Some(t) => {
            assert(enc_jstr(t) =~= seq!['"'] + (spec_escape(t) + seq!['"']));
            lemma_split_at(s, i, seq!['"'], spec_escape(t) + seq!['"']);
            assert(s.subrange(i, i + 1)[0] == s[i]);
            assert(s[i] == '"');
            lemma_rt_string_body(s, i + 1, t);
        },
    }
}

/// Transaction type names contain no escaped characters and are told
/// apart by the parser.
proof fn lemma_tt_names(t: TransactionType)
    ensures
        spec_escape(tt_name(t)) == tt_name(t),
        tt_of_name(tt_name(t)) == Some(t),
{
    reveal_strlit("AddTriple");
    reveal_strlit("DeleteTriple");
    reveal_strlit("ReplaceTriple");
    reveal_strlit("AddTriplesBatch");
    reveal_strlit("DeleteTriplesBatch");
    reveal_strlit("DropGraph");
    reveal_strlit("ImportData");
    assert("AddTriple"@ != "DropGraph"@) by {
        assert("AddTriple"@[0] == 'A');
        assert("DropGraph"@[0] == 'D');
    }
    assert(forall|j: int|
        0 <= j < tt_name(t).len() ==> (#[trigger] tt_name(t)[j]) != '\\' && tt_name(t)[j] != '"'
            && tt_name(t)[j] != '\n' && tt_name(t)[j] != '\r' && tt_name(t)[j] != '\t');
    lemma_escape_plain(tt_name(t));
}

/// A node object written by the encoder parses back to its value.
#[verifier::rlimit(60)]
proof fn lemma_rt_node(s: Seq<char>, i: int, n: RdfNodeView)
    requires
        0 <= i,
        i + enc_node(n).len() <= s.len(),
        s.subrange(i, i + enc_node(n).len()) == enc_node(n),
    ensures
        sp_node(s, i) == Some((n, i + enc_node(n).len())),
{
    reveal_strlit("{\"type\":\"");
    reveal_strlit("{\"type\":\"uri\",\"value\":");
    reveal_strlit("{\"type\":\"literal\",\"value\":");
    reveal_strlit("{\"type\":\"blank\",\"value\":");
    reveal_strlit("uri");
    reveal_strlit("literal");
    reveal_strlit("blank");
    reveal_strlit(",\"value\":");
    reveal_strlit(",\"datatype\":");
    reveal_strlit(",\"language\":");
    reveal_strlit("}");
    assert("literal"@ != "uri"@) by {
        assert("literal"@.len() == 7);
        assert("uri"@.len() == 3);
    }
    assert("blank"@ != "uri"@ && "blank"@ != "literal"@) by {
        assert("blank"@.len() == 5);
    }
    assert(forall|j: int|
        0 <= j < "uri"@.len() ==> (#[trigger] "uri"@[j]) != '\\' && "uri"@[j] != '"' && "uri"@[j]
            != '\n' && "uri"@[j] != '\r' && "uri"@[j] != '\t');
    lemma_escape_plain("uri"@);
    assert(forall|j: int|
        0 <= j < "literal"@.len() ==> (#[trigger] "literal"@[j]) != '\\' && "literal"@[j] != '"'
            && "literal"@[j] != '\n' && "literal"@[j] != '\r' && "literal"@[j] != '\t');
    lemma_escape_plain("literal"@);
    assert(forall|j: int|
        0 <= j < "blank"@.len() ==> (#[trigger] "blank"@[j]) != '\\' && "blank"@[j] != '"'
            && "blank"@[j] != '\n' && "blank"@[j] != '\r' && "blank"@[j] != '\t');
    lemma_escape_plain("blank"@);
    match n {
        RdfNodeView::Uri { value } => {
            let head = "{\"type\":\"uri\",\"value\":"@;
            let tagged = "{\"type\":\""@ + ("uri"@ + seq!['"']) + ",\"value\":"@;
            assert(head =~= tagged);
            let jl = enc_jstr(value).len() as int;
            assert(enc_node(n) =~= head + (enc_jstr(value) + "}"@));
            lemma_split_at(s, i, head, enc_jstr(value) + "}"@);
            lemma_split_at(s, i + head.len(), enc_jstr(value), "}"@);
            // Carve the tag and the field name out of the head.
            assert(head =~= "{\"type\":\""@ + (("uri"@ + seq!['"']) + ",\"value\":"@));
            lemma_split_at(s, i, "{\"type\":\""@, ("uri"@ + seq!['"']) + ",\"value\":"@);
            lemma_split_at(s, i + 9, "uri"@ + seq!['"'], ",\"value\":"@);
            lemma_rt_string_body(s, i + 9, "uri"@);
            lemma_rt_jstr(s, i + 22, value);
            assert(s.subrange(i + 22 + jl, i + 22 + jl + 1) == "}"@);
            assert(sp_lit(s, i + 22 + jl, "}"@) == Some(i + 22 + jl + 1));
        },
        RdfNodeView::Blank { value } => {
            let head = "{\"type\":\"blank\",\"value\":"@;
            assert(head =~= "{\"type\":\""@ + (("blank"@ + seq!['"']) + ",\"value\":"@));
            let jl = enc_jstr(value).len() as int;
            assert(enc_node(n) =~= head + (enc_jstr(value) + "}"@));
            lemma_split_at(s, i, head, enc_jstr(value) + "}"@);
            lemma_split_at(s, i + head.len(), enc_jstr(value), "}"@);
            lemma_split_at(s, i, "{\"type\":\""@, ("blank"@ + seq!['"']) + ",\"value\":"@);
            lemma_split_at(s, i + 9, "blank"@ + seq!['"'], ",\"value\":"@);
            lemma_rt_string_body(s, i + 9, "blank"@);
            lemma_rt_jstr(s, i + 24, value);
            assert(s.subrange(i + 24 + jl, i + 24 + jl + 1) == "}"@);
            assert(sp_lit(s, i + 24 + jl, "}"@) == Some(i + 24 + jl + 1));
        },
        RdfNodeView::Literal { value, datatype, language } => {
            let head = "{\"type\":\"literal\",\"value\":"@;
            assert(head =~= "{\"type\":\""@ + (("literal"@ + seq!['"']) + ",\"value\":"@));
            let jl = enc_jstr(value).len() as int;
            let dl = enc_opt_str(datatype).len() as int;
            let ll = enc_opt_str(language).len() as int;
            let p1 = i + 26;  // after head
            let p2 = p1 + jl;  // after value
            let p3 = p2 + 12;  // after ,"datatype":
            let p4 = p3 + dl;  // after datatype
            let p5 = p4 + 12;  // after ,"language":
            let p6 = p5 + ll;  // after language
            assert(enc_node(n) =~= head + (enc_jstr(value) + (",\"datatype\":"@ + (enc_opt_str(
                datatype,
            ) + (",\"language\":"@ + (enc_opt_str(language) + "}"@))))));
            lemma_split_at(s, i, head, enc_jstr(value) + (",\"datatype\":"@ + (enc_opt_str(
                datatype,
            ) + (",\"language\":"@ + (enc_opt_str(language) + "}"@)))));
            lemma_split_at(s, p1, enc_jstr(value), ",\"datatype\":"@ + (enc_opt_str(datatype) + (
            ",\"language\":"@ + (enc_opt_str(language) + "}"@))));
            lemma_split_at(s, p2, ",\"datatype\":"@, enc_opt_str(datatype) + (",\"language\":"@ + (
            enc_opt_str(language) + "}"@)));
            lemma_split_at(s, p3, enc_opt_str(datatype), ",\"language\":"@ + (enc_opt_str(language)
                + "}"@));
            lemma_split_at(s, p4, ",\"language\":"@, enc_opt_str(language) + "}"@);
            lemma_split_at(s, p5, enc_opt_str(language), "}"@);
            lemma_split_at(s, i, "{\"type\":\""@, ("literal"@ + seq!['"']) + ",\"value\":"@);
            lemma_split_at(s, i + 9, "literal"@ + seq!['"'], ",\"value\":"@);
            lemma_rt_string_body(s, i + 9, "literal"@);
            lemma_rt_jstr(s, p1, value);
            lemma_rt_opt_str(s, p3, datatype);
            lemma_rt_opt_str(s, p5, language);
            assert(sp_lit(s, p2, ",\"datatype\":"@) == Some(p3));
            assert(sp_lit(s, p4, ",\"language\":"@) == Some(p5));
            assert(sp_lit(s, p6, "}"@) == Some(p6 + 1));
        },
    }
}

/// A triple object written by the encoder parses back to its value.
#[verifier::rlimit(60)]
proof fn lemma_rt_triple(s: Seq<char>, i: int, t: TripleView)
    requires
        0 <= i,
        i + enc_triple(t).len() <= s.len(),
        s.subrange(i, i + enc_triple(t).len()) == enc_triple(t),
    ensures
        sp_triple(s, i) == Some((t, i + enc_triple(t).len())),
{
    reveal_strlit("{\"subject\":");
    reveal_strlit(",\"predicate\":");
    reveal_strlit(",\"object\":");
    reveal_strlit(",\"graph\":");
    reveal_strlit("}");
    let jsl = enc_jstr(t.subject).len() as int;
    let jpl = enc_jstr(t.predicate).len() as int;
    let nl = enc_node(t.object).len() as int;
    let ogl = enc_opt_str(t.graph).len() as int;
    let q1 = i + 11;
    let q2 = q1 + jsl;
    let q3 = q2 + 13;
    let q4 = q3 + jpl;
    let q5 = q4 + 10;
    let q6 = q5 + nl;
    let q7 = q6 + 9;
    let q8 = q7 + ogl;
    assert(enc_triple(t) =~= "{\"subject\":"@ + (enc_jstr(t.subject) + (",\"predicate\":"@ + (
    enc_jstr(t.predicate) + (",\"object\":"@ + (enc_node(t.object) + (",\"graph\":"@ + (
    enc_opt_str(t.graph) + "}"@))))))));
    lemma_split_at(s, i, "{\"subject\":"@, enc_jstr(t.subject) + (",\"predicate\":"@ + (enc_jstr(
        t.predicate,
    ) + (",\"object\":"@ + (enc_node(t.object) + (",\"graph\":"@ + (enc_opt_str(t.graph)
        + "}"@)))))));
    lemma_split_at(s, q1, enc_jstr(t.subject), ",\"predicate\":"@ + (enc_jstr(t.predicate) + (
    ",\"object\":"@ + (enc_node(t.object) + (",\"graph\":"@ + (enc_opt_str(t.graph) + "}"@))))));
    lemma_split_at(s, q2, ",\"predicate\":"@, enc_jstr(t.predicate) + (",\"object\":"@ + (enc_node(
        t.object,
    ) + (",\"graph\":"@ + (enc_opt_str(t.graph) + "}"@)))));
    lemma_split_at(s, q3, enc_jstr(t.predicate), ",\"object\":"@ + (enc_node(t.object) + (
    ",\"graph\":"@ + (enc_opt_str(t.graph) + "}"@))));
    lemma_split_at(s, q4, ",\"object\":"@, enc_node(t.object) + (",\"graph\":"@ + (enc_opt_str(
        t.graph,
    ) + "}"@)));
    lemma_split_at(s, q5, enc_node(t.object), ",\"graph\":"@ + (enc_opt_str(t.graph) + "}"@));
    lemma_split_at(s, q6, ",\"graph\":"@, enc_opt_str(t.graph) + "}"@);
    lemma_split_at(s, q7, enc_opt_str(t.graph), "}"@);
    lemma_rt_jstr(s, q1, t.subject);
    lemma_rt_jstr(s, q3, t.predicate);
    lemma_rt_node(s, q5, t.object);
    lemma_rt_opt_str(s, q7, t.graph);
    assert(sp_lit(s, i, "{\"subject\":"@) == Some(q1));
    assert(sp_lit(s, q2, ",\"predicate\":"@) == Some(q3));
    assert(sp_lit(s, q4, ",\"object\":"@) == Some(q5));
    assert(sp_lit(s, q6, ",\"graph\":"@) == Some(q7));
    assert(sp_lit(s, q8, "}"@) == Some(q8 + 1));
}

/// A comma-separated item list written by the encoder, followed by the
/// closing bracket, parses back to its triples.
proof fn lemma_rt_items(s: Seq<char>, i: int, ts: Seq<TripleView>)
    requires
        ts.len() >= 1,
        0 <= i,
        i + enc_triple_items(ts).len() < s.len(),
        s.subrange(i, i + enc_triple_items(ts).len()) == enc_triple_items(ts),
        s[i + enc_triple_items(ts).len()] == ']',
    ensures
        sp_triple_items(s, i) == Some((ts, i + enc_triple_items(ts).len() + 1)),
    decreases ts.len(),
{
    reveal_strlit("{\"subject\":");
    let e0 = enc_triple(ts[0]);
    assert(e0.len() >= 11) by {
        assert(e0 == ("{\"subject\":"@ + enc_jstr(ts[0].subject) + ",\"predicate\":"@ + enc_jstr(
            ts[0].predicate,
        ) + ",\"object\":"@ + enc_node(ts[0].object) + ",\"graph\":"@ + enc_opt_str(ts[0].graph)
            + "}"@));
    }
    if ts.len() == 1 {
        lemma_rt_triple(s, i, ts[0]);
        let j = i + e0.len();
        assert(s[j] == ']');
        assert(seq![ts[0]] =~= ts);
    } else {
        let rest = enc_triple_items(ts.drop_first());
        assert(enc_triple_items(ts) =~= e0 + (seq![','] + rest));
        lemma_split_at(s, i, e0, seq![','] + rest);
        lemma_split_at(s, i + e0.len(), seq![','], rest);
        lemma_rt_triple(s, i, ts[0]);
        let j = i + e0.len();
        assert(s.subrange(j, j + 1)[0] == s[j]);
        assert(s[j] == ',');
        lemma_rt_items(s, j + 1, ts.drop_first());
        assert(seq![ts[0]] + ts.drop_first() =~= ts);
    }
}

/// An optional triple array written by the encoder parses back to its
/// value.
proof fn lemma_rt_opt_triples(s: Seq<char>, i: int, v: Option<Seq<TripleView>>)
    requires
        0 <= i,
        i + enc_opt_triples(v).len() <= s.len(),
        s.subrange(i, i + enc_opt_triples(v).len()) == enc_opt_triples(v),
    ensures
        sp_opt_triples(s, i) == Some((v, i + enc_opt_triples(v).len())),
{
    reveal_strlit("null");
    reveal_strlit("{\"subject\":");
    match v {
        None => {
            assert(s.subrange(i, i + 4)[0] == s[i]);
            assert(s[i] == 'n');
        },
        Some(ts) => {
            let items = enc_triple_items(ts);
            assert(enc_triples(ts) =~= seq!['['] + (items + seq![']']));
            lemma_split_at(s, i, seq!['['], items + seq![']']);
            lemma_split_at(s, i + 1, items, seq![']']);
            assert(s.subrange(i, i + 1)[0] == s[i]);
            assert(s[i] == '[');
            assert(s.subrange(i + 1 + items.len(), i + 1 + items.len() + 1)[0] == s[i + 1
                + items.len()]);
            assert(s[i + 1 + items.len()] == ']');
            if ts.len() == 0 {
                assert(items =~= Seq::<char>::empty());
                assert(s[i + 1] == ']');
                assert(ts =~= Seq::<TripleView>::empty());
            } else {
                let e0 = enc_triple(ts[0]);
                assert(items[0] == e0[0]) by {
                    if ts.len() == 1 {
                    } else {
                        assert(items == e0 + seq![','] + enc_triple_items(ts.drop_first()));
                    }
                    assert(e0.len() >= 11) by {
                        assert(e0 == ("{\"subject\":"@ + enc_jstr(ts[0].subject)
                            + ",\"predicate\":"@ + enc_jstr(ts[0].predicate) + ",\"object\":"@
                            + enc_node(ts[0].object) + ",\"graph\":"@ + enc_opt_str(ts[0].graph)
                            + "}"@));
                    }
                }
                assert(e0[0] == '{') by {
                    assert(e0 == ("{\"subject\":"@ + enc_jstr(ts[0].subject) + ",\"predicate\":"@
                        + enc_jstr(ts[0].predicate) + ",\"object\":"@ + enc_node(ts[0].object)
                        + ",\"graph\":"@ + enc_opt_str(ts[0].graph) + "}"@));
                    assert(e0[0] == "{\"subject\":"@[0]);
                }
                assert(s.subrange(i + 1, i + 1 + items.len())[0] == s[i + 1]);
                assert(s[i + 1] == '{');
                lemma_rt_items(s, i + 1, ts);
            }
        },
    }
}

/// The positions of every field segment inside a canonical line.
pub open spec fn record_segments_at(v: TransactionRecordView) -> bool {
    let s = spec_encode_record(v);
    let k2 = enc_jstr(v.id);
    let k4 = spec_dec_digits(v.timestamp as nat);
    let k6 = tt_name(v.transaction_type);
    let k9 = enc_opt_str(v.graph);
    let k11 = enc_opt_triples(v.old_data);
    let k13 = enc_opt_triples(v.new_data);
    let k15 = enc_jstr(v.description);
    let k17 = enc_opt_str(v.user_id);
    let k19 = enc_opt_str(v.user_name);
    let p1 = "{\"id\":"@.len() as int;
    let p2 = p1 + k2.len();
    let p3 = p2 + ",\"timestamp\":"@.len();
    let p4 = p3 + k4.len();
    let p5 = p4 + ",\"transaction_type\":\""@.len();
    let p6 = p5 + k6.len();
    let p7 = p6 + 1;
    let p8 = p7 + ",\"graph\":"@.len();
    let p9 = p8 + k9.len();
    let p10 = p9 + ",\"old_data\":"@.len();
    let p11 = p10 + k11.len();
    let p12 = p11 + ",\"new_data\":"@.len();
    let p13 = p12 + k13.len();
    let p14 = p13 + ",\"description\":"@.len();
    let p15 = p14 + k15.len();
    let p16 = p15 + ",\"user_id\":"@.len();
    let p17 = p16 + k17.len();
    let p18 = p17 + ",\"user_name\":"@.len();
    let p19 = p18 + k19.len();
    &&& s.subrange(0, p1) == "{\"id\":"@
    &&& s.subrange(p1, p2) == k2
    &&& s.subrange(p2, p3) == ",\"timestamp\":"@
    &&& s.subrange(p3, p4) == k4
    &&& s.subrange(p4, p5) == ",\"transaction_type\":\""@
    &&& s.subrange(p5, p6 + 1) == k6 + seq!['"']
    &&& s.subrange(p7, p8) == ",\"graph\":"@
    &&& s.subrange(p8, p9) == k9
    &&& s.subrange(p9, p10) == ",\"old_data\":"@
    &&& s.subrange(p10, p11) == k11
    &&& s.subrange(p11, p12) == ",\"new_data\":"@
    &&& s.subrange(p12, p13) == k13
    &&& s.subrange(p13, p14) == ",\"description\":"@
    &&& s.subrange(p14, p15) == k15
    &&& s.subrange(p15, p16) == ",\"user_id\":"@
    &&& s.subrange(p16, p17) == k17
    &&& s.subrange(p17, p18) == ",\"user_name\":"@
    &&& s.subrange(p18, p19) == k19
    &&& s.subrange(p19, p19 + 1) == seq!['}']
    &&& p19 + 1 == s.len()
}

#[verifier::rlimit(100)]
proof fn lemma_record_segments(v: TransactionRecordView)
    ensures
        record_segments_at(v),
{
    reveal_strlit("{\"id\":");
    reveal_strlit(",\"timestamp\":");
    reveal_strlit(",\"transaction_type\":\"");
    reveal_strlit(",\"graph\":");
    reveal_strlit(",\"old_data\":");
    reveal_strlit(",\"new_data\":");
    reveal_strlit(",\"description\":");
    reveal_strlit(",\"user_id\":");
    reveal_strlit(",\"user_name\":");
    reveal_strlit("}");
    let s = spec_encode_record(v);
    let k2 = enc_jstr(v.id);
    let k4 = spec_dec_digits(v.timestamp as nat);
    let k6 = tt_name(v.transaction_type);
    let k9 = enc_opt_str(v.graph);
    let k11 = enc_opt_triples(v.old_data);
    let k13 = enc_opt_triples(v.new_data);
    let k15 = enc_jstr(v.description);
    let k17 = enc_opt_str(v.user_id);
    let k19 = enc_opt_str(v.user_name);
    let q1 = ",\"timestamp\":"@.len() as int;
    let q2 = ",\"transaction_type\":\""@.len() as int;
    let q3 = ",\"graph\":"@.len() as int;
    let q4 = ",\"old_data\":"@.len() as int;
    let q5 = ",\"new_data\":"@.len() as int;
    let q6 = ",\"description\":"@.len() as int;
    let q7 = ",\"user_id\":"@.len() as int;
    let q8 = ",\"user_name\":"@.len() as int;
    let p1 = "{\"id\":"@.len() as int;
    let p2 = p1 + k2.len();
    let p3 = p2 + q1;
    let p4 = p3 + k4.len();
    let p5 = p4 + q2;
    let p6 = p5 + k6.len();
    let p7 = p6 + 1;
    let p8 = p7 + q3;
    let p9 = p8 + k9.len();
    let p10 = p9 + q4;
    let p11 = p10 + k11.len();
    let p12 = p11 + q5;
    let p13 = p12 + k13.len();
    let p14 = p13 + q6;
    let p15 = p14 + k15.len();
    let p16 = p15 + q7;
    let p17 = p16 + k17.len();
    let p18 = p17 + q8;
    let p19 = p18 + k19.len();
    let r5 = ",\"transaction_type\":\""@ + ((k6 + seq!['"']) + (",\"graph\":"@ + (k9 + (
    ",\"old_data\":"@ + (k11 + (",\"new_data\":"@ + (k13 + (",\"description\":"@ + (k15 + (
    ",\"user_id\":"@ + (k17 + (",\"user_name\":"@ + (k19 + seq!['}'])))))))))))));
    let r4 = k4 + r5;
    let r3 = ",\"timestamp\":"@ + r4;
    let r2 = k2 + r3;
    assert(s =~= "{\"id\":"@ + r2);
    assert(s.subrange(0, s.len() as int) =~= s);
    lemma_split_at(s, 0, "{\"id\":"@, r2);
    lemma_split_at(s, p1, k2, r3);
    lemma_split_at(s, p2, ",\"timestamp\":"@, r4);
    lemma_split_at(s, p3, k4, r5);
    lemma_split_at(s, p4, ",\"transaction_type\":\""@, (k6 + seq!['"']) + (",\"graph\":"@ + (k9 + (
    ",\"old_data\":"@ + (k11 + (",\"new_data\":"@ + (k13 + (",\"description\":"@ + (k15 + (
    ",\"user_id\":"@ + (k17 + (",\"user_name\":"@ + (k19 + seq!['}'])))))))))))));
    lemma_split_at(s, p5, k6 + seq!['"'], ",\"graph\":"@ + (k9 + (",\"old_data\":"@ + (k11 + (
    ",\"new_data\":"@ + (k13 + (",\"description\":"@ + (k15 + (",\"user_id\":"@ + (k17 + (
    ",\"user_name\":"@ + (k19 + seq!['}']))))))))))));
    lemma_split_at(s, p6 + 1, ",\"graph\":"@, k9 + (",\"old_data\":"@ + (k11 + (",\"new_data\":"@
        + (k13 + (",\"description\":"@ + (k15 + (",\"user_id\":"@ + (k17 + (",\"user_name\":"@ + (
    k19 + seq!['}'])))))))))));
    lemma_split_at(s, p8, k9, ",\"old_data\":"@ + (k11 + (",\"new_data\":"@ + (k13 + (
    ",\"description\":"@ + (k15 + (",\"user_id\":"@ + (k17 + (",\"user_name\":"@ + (k19
        + seq!['}']))))))))));
    lemma_split_at(s, p9, ",\"old_data\":"@, k11 + (",\"new_data\":"@ + (k13 + (
    ",\"description\":"@ + (k15 + (",\"user_id\":"@ + (k17 + (",\"user_name\":"@ + (k19
        + seq!['}'])))))))));
    lemma_split_at(s, p10, k11, ",\"new_data\":"@ + (k13 + (",\"description\":"@ + (k15 + (
    ",\"user_id\":"@ + (k17 + (",\"user_name\":"@ + (k19 + seq!['}']))))))));
    lemma_split_at(s, p11, ",\"new_data\":"@, k13 + (",\"description\":"@ + (k15 + (
    ",\"user_id\":"@ + (k17 + (",\"user_name\":"@ + (k19 + seq!['}'])))))));
    lemma_split_at(s, p12, k13, ",\"description\":"@ + (k15 + (",\"user_id\":"@ + (k17 + (
    ",\"user_name\":"@ + (k19 + seq!['}']))))));
    lemma_split_at(s, p13, ",\"description\":"@, k15 + (",\"user_id\":"@ + (k17 + (
    ",\"user_name\":"@ + (k19 + seq!['}'])))));
    lemma_split_at(s, p14, k15, ",\"user_id\":"@ + (k17 + (",\"user_name\":"@ + (k19
        + seq!['}']))));
    lemma_split_at(s, p15, ",\"user_id\":"@, k17 + (",\"user_name\":"@ + (k19 + seq!['}'])));
    lemma_split_at(s, p16, k17, ",\"user_name\":"@ + (k19 + seq!['}']));
    lemma_split_at(s, p17, ",\"user_name\":"@, k19 + seq!['}']);
    lemma_split_at(s, p18, k19, seq!['}']);
}

/// The canonical line of any record parses back to exactly that record:
/// the parser is the inverse of the encoder.
#[verifier::rlimit(100)]
pub proof fn lemma_parse_encode_record(v: TransactionRecordView)
    ensures
        sp_record(spec_encode_record(v)) == Some(v),
{
    lemma_record_segments(v);
    let s = spec_encode_record(v);
    let k2 = enc_jstr(v.id);
    let k4 = spec_dec_digits(v.timestamp as nat);
    let k6 = tt_name(v.transaction_type);
    let k9 = enc_opt_str(v.graph);
    let k11 = enc_opt_triples(v.old_data);
    let k13 = enc_opt_triples(v.new_data);
    let k15 = enc_jstr(v.description);
    let k17 = enc_opt_str(v.user_id);
    let k19 = enc_opt_str(v.user_name);
    let p1 = "{\"id\":"@.len() as int;
    let p2 = p1 + k2.len();
    let p3 = p2 + ",\"timestamp\":"@.len();
    let p4 = p3 + k4.len();
    let p5 = p4 + ",\"transaction_type\":\""@.len();
    let p6 = p5 + k6.len();
    let p7 = p6 + 1;
    let p8 = p7 + ",\"graph\":"@.len();
    let p9 = p8 + k9.len();
    let p10 = p9 + ",\"old_data\":"@.len();
    let p11 = p10 + k11.len();
    let p12 = p11 + ",\"new_data\":"@.len();
    let p13 = p12 + k13.len();
    let p14 = p13 + ",\"description\":"@.len();
    let p15 = p14 + k15.len();
    let p16 = p15 + ",\"user_id\":"@.len();
    let p17 = p16 + k17.len();
    let p18 = p17 + ",\"user_name\":"@.len();
    let p19 = p18 + k19.len();
    reveal_strlit("{\"id\":");
    reveal_strlit(",\"timestamp\":");
    reveal_strlit(",\"transaction_type\":\"");
    reveal_strlit(",\"graph\":");
    reveal_strlit(",\"old_data\":");
    reveal_strlit(",\"new_data\":");
    reveal_strlit(",\"description\":");
    reveal_strlit(",\"user_id\":");
    reveal_strlit(",\"user_name\":");
    reveal_strlit("}");
    // Parse the pieces back.
    lemma_rt_jstr(s, p1, v.id);
    assert(s.subrange(p4, p5)[0] == s[p4]);
    assert(s[p4] == ',');
    lemma_rt_u64(s, p3, v.timestamp);
    lemma_tt_names(v.transaction_type);
    lemma_rt_string_body(s, p5, k6);
    lemma_rt_opt_str(s, p8, v.graph);
    lemma_rt_opt_triples(s, p10, v.old_data);
    lemma_rt_opt_triples(s, p12, v.new_data);
    lemma_rt_jstr(s, p14, v.description);
    lemma_rt_opt_str(s, p16, v.user_id);
    lemma_rt_opt_str(s, p18, v.user_name);
    assert(sp_lit(s, 0, "{\"id\":"@) == Some(p1));
    assert(sp_lit(s, p2, ",\"timestamp\":"@) == Some(p3));
    assert(sp_lit(s, p4, ",\"transaction_type\":\""@) == Some(p5));
    assert(sp_lit(s, p7, ",\"graph\":"@) == Some(p8));
    assert(sp_lit(s, p9, ",\"old_data\":"@) == Some(p10));
    assert(sp_lit(s, p11, ",\"new_data\":"@) == Some(p12));
    assert(sp_lit(s, p13, ",\"description\":"@) == Some(p14));
    assert(sp_lit(s, p15, ",\"user_id\":"@) == Some(p16));
    assert(sp_lit(s, p17, ",\"user_name\":"@) == Some(p18));
    assert("}"@ =~= seq!['}']);
    assert(sp_lit(s, p19, "}"@) == Some(p19 + 1));
    assert(p19 + 1 == s.len());
    assert(sp_record(s) == Some(
        TransactionRecordView {
            id: v.id,
            timestamp: v.timestamp,
            transaction_type: v.transaction_type,
            graph: v.graph,
            old_data: v.old_data,
            new_data: v.new_data,
            description: v.description,
            user_id: v.user_id,
            user_name: v.user_name,
        },
    ));
}

} // verus!
