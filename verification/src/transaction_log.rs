//! The transaction log: an append-only durable record of every mutation.
//!
//! The logger here is the decision core of the log. It owns the batch-mode
//! state machine and the in-memory batch buffer, and it produces the exact
//! text that must be appended to the log file; performing the append — the
//! only blocking I/O of the subsystem — is the caller's part. In immediate
//! mode every `log_*` call yields exactly one encoded line to append;
//! in batch mode records accumulate in the buffer and `end_batch` yields
//! their lines in buffering order.

use vstd::prelude::*;
use crate::codec;
use crate::models::Triple;
use crate::models::TripleView;
use crate::models::spec_triple_views;
use crate::text::push_chars;
use crate::text::string_from_chars;

verus! {

/// The closed set of mutation kinds the log records.
#[derive(Debug, Clone, Copy, PartialEq, Eq, Structural)]
pub enum TransactionType {
    AddTriple,
    DeleteTriple,
    ReplaceTriple,
    AddTriplesBatch,
    DeleteTriplesBatch,
    DropGraph,
    ImportData,
}

/// A transaction can be undone automatically iff it records a single-triple
/// mutation; batch, drop and import operations are never automatically
/// undoable because their inverse is not recorded per element.
pub open spec fn spec_can_undo(t: TransactionType) -> bool {
    t == TransactionType::AddTriple || t == TransactionType::DeleteTriple || t
        == TransactionType::ReplaceTriple
}

impl TransactionType {
    /// Whether a transaction of this type can be undone automatically.
    pub fn can_undo(&self) -> (r: bool)
        ensures
            r == spec_can_undo(*self),
    {
        match self {
            TransactionType::AddTriple => true,
            TransactionType::DeleteTriple => true,
            TransactionType::ReplaceTriple => true,
            TransactionType::AddTriplesBatch => false,
            TransactionType::DeleteTriplesBatch => false,
            TransactionType::DropGraph => false,
            TransactionType::ImportData => false,
        }
    }
}

/// One record of the log. Once appended to the durable log it is immutable
/// and never deleted.
#[derive(Debug, Clone, PartialEq, Eq)]
pub struct TransactionRecord {
    pub id: String,
    pub timestamp: u64,
    pub transaction_type: TransactionType,
    pub graph: Option<String>,
    pub old_data: Option<Vec<Triple>>,
    pub new_data: Option<Vec<Triple>>,
    pub description: String,
    pub user_id: Option<String>,
    pub user_name: Option<String>,
}

/// The mathematical value of a [`TransactionRecord`].
pub struct TransactionRecordView {
    pub id: Seq<char>,
    pub timestamp: u64,
    pub transaction_type: TransactionType,
    pub graph: Option<Seq<char>>,
    pub old_data: Option<Seq<TripleView>>,
    pub new_data: Option<Seq<TripleView>>,
    pub description: Seq<char>,
    pub user_id: Option<Seq<char>>,
    pub user_name: Option<Seq<char>>,
}

impl View for TransactionRecord {
    type V = TransactionRecordView;

    open spec fn view(&self) -> TransactionRecordView {
        TransactionRecordView {
            id: self.id@,
            timestamp: self.timestamp,
            transaction_type: self.transaction_type,
            graph: match self.graph {
                Some(g) => Some(g@),
                None => None,
            },
            old_data: match self.old_data {
                Some(v) => Some(spec_triple_views(v@)),
                None => None,
            },
            new_data: match self.new_data {
                Some(v) => Some(spec_triple_views(v@)),
                None => None,
            },
            description: self.description@,
            user_id: match self.user_id {
                Some(u) => Some(u@),
                None => None,
            },
            user_name: match self.user_name {
                Some(u) => Some(u@),
                None => None,
            },
        }
    }
}

/// A record as handed to readers, wrapped with its derived undo
/// capability.
#[derive(Debug, Clone, PartialEq, Eq)]
pub struct TransactionLogEntry {
    pub record: TransactionRecord,
    pub can_undo: bool,
}

/// Relies on uuid::Uuid::new_v4 with Uuid's Display impl: a fresh random
/// version-4 UUID in the standard 36-character hyphenated form. Nothing
/// more is assumed of the value.
#[verifier::external_body]
fn fresh_uuid() -> (r: String)
    ensures
        r@.len() == 36,
{
    uuid::Uuid::new_v4().to_string()
}

/// Relies on chrono::Utc::now with timestamp_millis: the current time in
/// milliseconds since the Unix epoch. Nothing is assumed of the value.
#[verifier::external_body]
fn now_millis() -> (r: u64)
{
    chrono::Utc::now().timestamp_millis() as u64
}

/// The views of a sequence of records.
pub open spec fn spec_record_views(s: Seq<TransactionRecord>) -> Seq<TransactionRecordView> {
    s.map_values(|r: TransactionRecord| r@)
}

/// The full line appended to the log for one record: its canonical
/// encoding and a newline.
pub open spec fn spec_encode_line(v: TransactionRecordView) -> Seq<char> {
    codec::spec_encode_record(v) + seq!['\n']
}

/// The lines for a sequence of records, in order.
pub open spec fn spec_encode_lines(s: Seq<TransactionRecordView>) -> Seq<Seq<char>> {
    s.map_values(|v: TransactionRecordView| spec_encode_line(v))
}

/// The record an add-triple mutation logs.
pub open spec fn spec_add_record(
    id: Seq<char>,
    ts: u64,
    graph: Option<Seq<char>>,
    t: crate::models::TripleView,
    user_id: Option<Seq<char>>,
) -> TransactionRecordView {
    TransactionRecordView {
        id,
        timestamp: ts,
        transaction_type: TransactionType::AddTriple,
        graph,
        old_data: None,
        new_data: Some(seq![t]),
        description: "Added triple: "@ + crate::models::spec_sparql_pattern(t),
        user_id,
        user_name: None,
    }
}

/// The record a delete-triple mutation logs.
pub open spec fn spec_delete_record(
    id: Seq<char>,
    ts: u64,
    graph: Option<Seq<char>>,
    t: crate::models::TripleView,
    user_id: Option<Seq<char>>,
) -> TransactionRecordView {
    TransactionRecordView {
        id,
        timestamp: ts,
        transaction_type: TransactionType::DeleteTriple,
        graph,
        old_data: Some(seq![t]),
        new_data: None,
        description: "Deleted triple: "@ + crate::models::spec_sparql_pattern(t),
        user_id,
        user_name: None,
    }
}

/// The record a replace-triple mutation logs.
pub open spec fn spec_replace_record(
    id: Seq<char>,
    ts: u64,
    graph: Option<Seq<char>>,
    old_t: crate::models::TripleView,
    new_t: crate::models::TripleView,
    user_id: Option<Seq<char>>,
) -> TransactionRecordView {
    TransactionRecordView {
        id,
        timestamp: ts,
        transaction_type: TransactionType::ReplaceTriple,
        graph,
        old_data: Some(seq![old_t]),
        new_data: Some(seq![new_t]),
        description: "Replaced triple: "@ + crate::models::spec_sparql_pattern(old_t) + " -> "@
            + crate::models::spec_sparql_pattern(new_t),
        user_id,
        user_name: None,
    }
}

/// The record a batch operation logs.
pub open spec fn spec_batch_record(
    id: Seq<char>,
    ts: u64,
    tt: TransactionType,
    graph: Option<Seq<char>>,
    old_data: Option<Seq<TripleView>>,
    new_data: Option<Seq<TripleView>>,
    description: Seq<char>,
    user_id: Option<Seq<char>>,
) -> TransactionRecordView {
    TransactionRecordView {
        id,
        timestamp: ts,
        transaction_type: tt,
        graph,
        old_data,
        new_data,
        description,
        user_id,
        user_name: None,
    }
}

/// The abstraction of an optional borrowed string.
pub open spec fn spec_opt_view(s: Option<&String>) -> Option<Seq<char>> {
    match s {
        Some(t) => Some(t@),
        None => None,
    }
}

/// The abstraction of an optional borrowed triple vector.
pub open spec fn spec_opt_triple_views(v: Option<&Vec<Triple>>) -> Option<Seq<TripleView>> {
    match v {
        Some(ts) => Some(spec_triple_views(ts@)),
        None => None,
    }
}

/// How one routed record relates the logger's state before and after the
/// call, the returned id and line, and the record's value: in batch mode
/// the record joins the buffer and no line is returned; in immediate mode
/// the state is unchanged and exactly one encoded line is returned, which
/// the caller must append and flush before treating the call as complete.
pub open spec fn spec_logged(
    before: TransactionLogger,
    after: TransactionLogger,
    r: (String, Option<String>),
    rv: TransactionRecordView,
) -> bool {
    &&& r.0@ == rv.id
    &&& before.batching() ==> after.batching() && after.buffer() == before.buffer().push(rv)
        && r.1 is None
    &&& !before.batching() ==> !after.batching() && after.buffer() == before.buffer()
        && r.1 is Some && (r.1->0)@ == spec_encode_line(rv)
}

/// The decision core of the transaction log: the Immediate/Batching state
/// machine and the batch buffer. It produces the exact lines to append;
/// appending them durably — and reporting an I/O failure to the caller —
/// is the file-owning caller's part.
pub struct TransactionLogger {
    batch_mode: bool,
    batch_buffer: Vec<TransactionRecord>,
}

impl TransactionLogger {
    /// Whether the logger is in batch mode.
    pub closed spec fn batching(&self) -> bool {
        self.batch_mode
    }

    /// The buffered records, in buffering order.
    pub closed spec fn buffer(&self) -> Seq<TransactionRecordView> {
        spec_record_views(self.batch_buffer@)
    }

    /// A fresh logger: immediate mode, empty buffer.
    pub fn new() -> (r: Self)
        ensures
            !r.batching(),
            r.buffer() == Seq::<TransactionRecordView>::empty(),
    {
        let r = TransactionLogger { batch_mode: false, batch_buffer: Vec::new() };
        proof {
            assert(r.buffer() =~= Seq::<TransactionRecordView>::empty());
        }
        r
    }

    /// Immediate → Batching. Re-entering batch mode is a no-op on the
    /// state and the buffer.
    pub fn start_batch(&mut self)
        ensures
            final(self).batching(),
            final(self).buffer() == old(self).buffer(),
    {
        self.batch_mode = true;
    }

    /// Batching → Immediate: drains the buffer and returns one full line
    /// per buffered record, in buffering order. The caller must append
    /// the lines to the log file in this order and flush once after all
    /// of them.
    pub fn end_batch(&mut self) -> (lines: Vec<String>)
        ensures
            !final(self).batching(),
            final(self).buffer() == Seq::<TransactionRecordView>::empty(),
            lines@.len() == old(self).buffer().len(),
            forall|k: int|
                0 <= k < lines@.len() ==> (#[trigger] lines@[k])@ == spec_encode_line(
                    old(self).buffer()[k],
                ),
    {
        self.batch_mode = false;
        let mut lines: Vec<String> = Vec::new();
        let mut i: usize = 0;
        let n = self.batch_buffer.len();
        while i < n
            invariant
                0 <= i <= n,
                n == self.batch_buffer@.len(),
                self.batch_buffer@ == old(self).batch_buffer@,
                lines@.len() == i,
                forall|k: int|
                    0 <= k < i ==> (#[trigger] lines@[k])@ == spec_encode_line(
                        spec_record_views(self.batch_buffer@)[k],
                    ),
            decreases n - i,
        {
            let mut lc: Vec<char> = Vec::new();
            codec::push_record(&mut lc, &self.batch_buffer[i]);
            lc.push('\n');
            lines.push(string_from_chars(&lc));
            i = i + 1;
        }
        self.batch_buffer.clear();
        proof {
            assert(self.buffer() =~= Seq::<TransactionRecordView>::empty());
        }
        lines
    }

    /// Routes one record: buffered in batch mode, or encoded into the one
    /// line the caller must append and flush before treating the call as
    /// complete. Returns the record's id.
    fn write_record(&mut self, record: TransactionRecord) -> (r: (String, Option<String>))
        ensures
            r.0@ == record.id@,
            old(self).batching() ==> final(self).batching() && final(self).buffer() == old(
                self,
            ).buffer().push(record@) && r.1 is None,
            !old(self).batching() ==> !final(self).batching()
                && final(self).buffer() == old(self).buffer() && r.1 is Some
                && (r.1->0)@ == spec_encode_line(record@),
    {
        let id = record.id.clone();
        if self.batch_mode {
            let ghost old_buf = self.batch_buffer@;
            self.batch_buffer.push(record);
            proof {
                assert(self.buffer() =~= spec_record_views(old_buf).push(
                    self.batch_buffer@.last()@,
                ));
            }
            (id, None)
        } else {
            let mut lc: Vec<char> = Vec::new();
            codec::push_record(&mut lc, &record);
            lc.push('\n');
            (id, Some(string_from_chars(&lc)))
        }
    }

    /// Logs the addition of one triple. In immediate mode the returned
    /// line must be appended and flushed before the mutation is treated
    /// as logged; in batch mode no line is returned and the file is not
    /// touched until `end_batch`.
    pub fn log_add_triple(
        &mut self,
        graph: Option<&String>,
        triple: &Triple,
        user_id: Option<&String>,
    ) -> (r: (String, Option<String>))
        ensures
            exists|ts: u64|
                spec_logged(
                    *old(self),
                    *final(self),
                    r,
                    #[trigger] spec_add_record(
                        r.0@,
                        ts,
                        spec_opt_view(graph),
                        triple@,
                        spec_opt_view(user_id),
                    ),
                ),
    {
        let id = fresh_uuid();
        let ts = now_millis();
        let mut desc: Vec<char> = Vec::new();
        push_chars(&mut desc, "Added triple: ");
        triple.push_sparql_pattern(&mut desc);
        proof {
            assert(desc@ =~= "Added triple: "@ + crate::models::spec_sparql_pattern(triple@));
        }
        let mut new_data_vec: Vec<Triple> = Vec::new();
        new_data_vec.push(triple.duplicate());
        let record = TransactionRecord {
            id,
            timestamp: ts,
            transaction_type: TransactionType::AddTriple,
            graph: match graph {
                Some(g) => Some(g.clone()),
                None => None,
            },
            old_data: None,
            new_data: Some(new_data_vec),
            description: string_from_chars(&desc),
            user_id: match user_id {
                Some(u) => Some(u.clone()),
                None => None,
            },
            user_name: None,
        };
        proof {
            assert(spec_triple_views(record.new_data->0@) =~= seq![triple@]);
            assert(record@ == spec_add_record(
                record.id@,
                ts,
                spec_opt_view(graph),
                triple@,
                spec_opt_view(user_id),
            ));
        }
        self.write_record(record)
    }

    /// Logs the deletion of one triple; same durability duty as
    /// `log_add_triple`.
    pub fn log_delete_triple(
        &mut self,
        graph: Option<&String>,
        triple: &Triple,
        user_id: Option<&String>,
    ) -> (r: (String, Option<String>))
        ensures
            exists|ts: u64|
                spec_logged(
                    *old(self),
                    *final(self),
                    r,
                    #[trigger] spec_delete_record(
                        r.0@,
                        ts,
                        spec_opt_view(graph),
                        triple@,
                        spec_opt_view(user_id),
                    ),
                ),
    {
        let id = fresh_uuid();
        let ts = now_millis();
        let mut desc: Vec<char> = Vec::new();
        push_chars(&mut desc, "Deleted triple: ");
        triple.push_sparql_pattern(&mut desc);
        proof {
            assert(desc@ =~= "Deleted triple: "@ + crate::models::spec_sparql_pattern(triple@));
        }
        let mut old_data_vec: Vec<Triple> = Vec::new();
        old_data_vec.push(triple.duplicate());
        let record = TransactionRecord {
            id,
            timestamp: ts,
            transaction_type: TransactionType::DeleteTriple,
            graph: match graph {
                Some(g) => Some(g.clone()),
                None => None,
            },
            old_data: Some(old_data_vec),
            new_data: None,
            description: string_from_chars(&desc),
            user_id: match user_id {
                Some(u) => Some(u.clone()),
                None => None,
            },
            user_name: None,
        };
        proof {
            assert(spec_triple_views(record.old_data->0@) =~= seq![triple@]);
            assert(record@ == spec_delete_record(
                record.id@,
                ts,
                spec_opt_view(graph),
                triple@,
                spec_opt_view(user_id),
            ));
        }
        self.write_record(record)
    }

    /// Logs the replacement of one triple by another; same durability
    /// duty as `log_add_triple`.
    pub fn log_replace_triple(
        &mut self,
        graph: Option<&String>,
        old_triple: &Triple,
        new_triple: &Triple,
        user_id: Option<&String>,
    ) -> (r: (String, Option<String>))
        ensures
            exists|ts: u64|
                spec_logged(
                    *old(self),
                    *final(self),
                    r,
                    #[trigger] spec_replace_record(
                        r.0@,
                        ts,
                        spec_opt_view(graph),
                        old_triple@,
                        new_triple@,
                        spec_opt_view(user_id),
                    ),
                ),
    {
        let id = fresh_uuid();
        let ts = now_millis();
        let mut desc: Vec<char> = Vec::new();
        push_chars(&mut desc, "Replaced triple: ");
        old_triple.push_sparql_pattern(&mut desc);
        push_chars(&mut desc, " -> ");
        new_triple.push_sparql_pattern(&mut desc);
        proof {
            assert(desc@ =~= "Replaced triple: "@ + crate::models::spec_sparql_pattern(old_triple@)
                + " -> "@ + crate::models::spec_sparql_pattern(new_triple@));
        }
        let mut old_data_vec: Vec<Triple> = Vec::new();
        old_data_vec.push(old_triple.duplicate());
        let mut new_data_vec: Vec<Triple> = Vec::new();
        new_data_vec.push(new_triple.duplicate());
        let record = TransactionRecord {
            id,
            timestamp: ts,
            transaction_type: TransactionType::ReplaceTriple,
            graph: match graph {
                Some(g) => Some(g.clone()),
                None => None,
            },
            old_data: Some(old_data_vec),
            new_data: Some(new_data_vec),
            description: string_from_chars(&desc),
            user_id: match user_id {
                Some(u) => Some(u.clone()),
                None => None,
            },
            user_name: None,
        };
        proof {
            assert(spec_triple_views(record.old_data->0@) =~= seq![old_triple@]);
            assert(spec_triple_views(record.new_data->0@) =~= seq![new_triple@]);
            assert(record@ == spec_replace_record(
                record.id@,
                ts,
                spec_opt_view(graph),
                old_triple@,
                new_triple@,
                spec_opt_view(user_id),
            ));
        }
        self.write_record(record)
    }

    /// Logs a batch operation with the given data and description; same
    /// durability duty as `log_add_triple`.
    pub fn log_batch_operation(
        &mut self,
        transaction_type: TransactionType,
        graph: Option<&String>,
        old_triples: Option<&Vec<Triple>>,
        new_triples: Option<&Vec<Triple>>,
        description: &String,
        user_id: Option<&String>,
    ) -> (r: (String, Option<String>))
        ensures
            exists|ts: u64|
                spec_logged(
                    *old(self),
                    *final(self),
                    r,
                    #[trigger] spec_batch_record(
                        r.0@,
                        ts,
                        transaction_type,
                        spec_opt_view(graph),
                        spec_opt_triple_views(old_triples),
                        spec_opt_triple_views(new_triples),
                        description@,
                        spec_opt_view(user_id),
                    ),
                ),
    {
        let id = fresh_uuid();
        let ts = now_millis();
        let record = TransactionRecord {
            id,
            timestamp: ts,
            transaction_type,
            graph: match graph {
                Some(g) => Some(g.clone()),
                None => None,
            },
            old_data: match old_triples {
                Some(v) => Some(duplicate_triples(v)),
                None => None,
            },
            new_data: match new_triples {
                Some(v) => Some(duplicate_triples(v)),
                None => None,
            },
            description: description.clone(),
            user_id: match user_id {
                Some(u) => Some(u.clone()),
                None => None,
            },
            user_name: None,
        };
        proof {
            assert(record@ == spec_batch_record(
                record.id@,
                ts,
                transaction_type,
                spec_opt_view(graph),
                spec_opt_triple_views(old_triples),
                spec_opt_triple_views(new_triples),
                description@,
                spec_opt_view(user_id),
            ));
        }
        self.write_record(record)
    }
}

/// A copy of a triple vector whose views equal the original's.
fn duplicate_triples(v: &Vec<Triple>) -> (r: Vec<Triple>)
    ensures
        r@ == v@,
{
    let mut r: Vec<Triple> = Vec::new();
    let mut i: usize = 0;
    while i < v.len()
        invariant
            0 <= i <= v@.len(),
            r@ =~= v@.subrange(0, i as int),
        decreases v@.len() - i,
    {
        r.push(v[i].duplicate());
        proof {
            assert(v@.subrange(0, i + 1) =~= v@.subrange(0, i as int).push(v@[i as int]));
        }
        i = i + 1;
    }
    proof {
        assert(v@.subrange(0, v@.len() as int) =~= v@);
    }
    r
}

/// Ending a batch that buffered `buf`, then `a`, then `b` yields the
/// lines of `buf` followed by the line for `a` immediately followed by
/// the line for `b`: batch order is file order.
pub proof fn lemma_batch_ordering(
    buf: Seq<TransactionRecordView>,
    a: TransactionRecordView,
    b: TransactionRecordView,
    lines: Seq<Seq<char>>,
)
    requires
        lines.len() == buf.push(a).push(b).len(),
        forall|k: int| 0 <= k < lines.len() ==> lines[k] == spec_encode_line(buf.push(a).push(b)[k]),
    ensures
        lines == spec_encode_lines(buf) + seq![spec_encode_line(a), spec_encode_line(b)],
{
    assert(lines =~= spec_encode_lines(buf) + seq![spec_encode_line(a), spec_encode_line(b)]);
}

/// The records of the parseable lines, in file order.
pub open spec fn spec_parsed(lines: Seq<Seq<char>>) -> Seq<TransactionRecordView>
    decreases lines.len(),
{
    if lines.len() == 0 {
        Seq::empty()
    } else {
        (match codec::sp_record(lines[0]) {
            Some(v) => seq![v],
            None => Seq::empty(),
        }) + spec_parsed(lines.drop_first())
    }
}

proof fn lemma_parsed_concat(a: Seq<Seq<char>>, b: Seq<Seq<char>>)
    ensures
        spec_parsed(a + b) == spec_parsed(a) + spec_parsed(b),
    decreases a.len(),
{
    if a.len() == 0 {
        assert(a + b =~= b);
        assert(spec_parsed(a) + spec_parsed(b) =~= spec_parsed(b));
    } else {
        assert((a + b).drop_first() =~= a.drop_first() + b);
        lemma_parsed_concat(a.drop_first(), b);
        assert((a + b)[0] == a[0]);
        match codec::sp_record(a[0]) {
            Some(v) => {
                assert(seq![v] + (spec_parsed(a.drop_first()) + spec_parsed(b)) =~= (seq![v]
                    + spec_parsed(a.drop_first())) + spec_parsed(b));
            },
            None => {
                assert(Seq::<TransactionRecordView>::empty() + (spec_parsed(a.drop_first())
                    + spec_parsed(b)) =~= (Seq::<TransactionRecordView>::empty() + spec_parsed(
                    a.drop_first(),
                )) + spec_parsed(b));
            },
        }
    }
}

/// Reads the log text fresh: parses each line independently, silently
/// skips any line that does not parse, and returns at most `limit`
/// entries, most recent first, each wrapped with its undo capability.
#[verifier::rlimit(60)]
pub fn get_recent_transactions(text: &str, limit: usize) -> (r: Vec<TransactionLogEntry>)
    ensures
        ({
            let parsed = spec_parsed(crate::text::spec_split_lines(text@));
            &&& r@.len() == (if limit <= parsed.len() {
                limit as int
            } else {
                parsed.len() as int
            })
            &&& forall|k: int|
                0 <= k < r@.len() ==> (#[trigger] r@[k]).record@ == parsed[parsed.len() - 1 - k]
                    && r@[k].can_undo == spec_can_undo(parsed[parsed.len() - 1 - k].transaction_type)
        }),
{
    let chars = crate::text::chars_of(text);
    let lines = crate::text::split_lines(&chars);
    let ghost line_views = lines@.map_values(|l: Vec<char>| l@);
    let mut records: Vec<TransactionRecord> = Vec::new();
    let mut i: usize = 0;
    while i < lines.len()
        invariant
            0 <= i <= lines@.len(),
            line_views == lines@.map_values(|l: Vec<char>| l@),
            spec_record_views(records@) == spec_parsed(line_views.take(i as int)),
        decreases lines@.len() - i,
    {
        let ghost prefix = line_views.take(i as int);
        proof {
            assert(line_views[i as int] == lines@[i as int]@);
        }
        match codec::parse_record(&lines[i]) {
            Some(rec) => {
                let ghost rv = rec@;
                records.push(rec);
                proof {
                    assert(line_views.take(i + 1) =~= prefix + seq![line_views[i as int]]);
                    lemma_parsed_concat(prefix, seq![line_views[i as int]]);
                    assert(seq![line_views[i as int]].drop_first() =~= Seq::<Seq<char>>::empty());
                    assert(spec_parsed(Seq::<Seq<char>>::empty()) =~= Seq::<
                        TransactionRecordView,
                    >::empty());
                    assert(seq![line_views[i as int]][0] == line_views[i as int]);
                    assert(codec::sp_record(line_views[i as int]) == Some(rv));
                    assert(spec_parsed(seq![line_views[i as int]]) =~= seq![rv]);
                    assert(spec_record_views(records@) =~= spec_parsed(prefix).push(rv));
                    assert(spec_parsed(prefix).push(rv) =~= spec_parsed(prefix) + seq![rv]);
                }
            },
            None => {
                proof {
                    assert(line_views.take(i + 1) =~= prefix + seq![line_views[i as int]]);
                    lemma_parsed_concat(prefix, seq![line_views[i as int]]);
                    assert(seq![line_views[i as int]].drop_first() =~= Seq::<Seq<char>>::empty());
                    assert(spec_parsed(Seq::<Seq<char>>::empty()) =~= Seq::<
                        TransactionRecordView,
                    >::empty());
                    assert(seq![line_views[i as int]][0] == line_views[i as int]);
                    assert(codec::sp_record(line_views[i as int]) is None);
                    assert(spec_parsed(seq![line_views[i as int]]) =~= Seq::<
                        TransactionRecordView,
                    >::empty());
                    assert(spec_parsed(prefix) + Seq::<TransactionRecordView>::empty()
                        =~= spec_parsed(prefix));
                }
            },
        }
        i = i + 1;
    }
    proof {
        assert(line_views.take(lines@.len() as int) =~= line_views);
    }
    let ghost parsed = spec_parsed(line_views);
    let mut out: Vec<TransactionLogEntry> = Vec::new();
    let mut taken: usize = 0;
    while taken < limit && records.len() > 0
        invariant
            0 <= taken,
            taken <= limit,
            spec_record_views(records@) == parsed.take(parsed.len() - taken),
            taken <= parsed.len(),
            out@.len() == taken,
            forall|k: int|
                0 <= k < taken ==> (#[trigger] out@[k]).record@ == parsed[parsed.len() - 1 - k]
                    && out@[k].can_undo == spec_can_undo(
                    parsed[parsed.len() - 1 - k].transaction_type,
                ),
        decreases records@.len(),
    {
        let ghost pre = records@;
        let rec = records.pop().unwrap();
        proof {
            assert(spec_record_views(pre)[pre.len() - 1] == rec@);
            assert(spec_record_views(records@) =~= spec_record_views(pre).drop_last());
            assert(spec_record_views(pre).drop_last() =~= parsed.take(parsed.len() - taken - 1));
            assert(rec@ == parsed[parsed.len() - 1 - taken]);
        }
        let cu = rec.transaction_type.can_undo();
        out.push(TransactionLogEntry { record: rec, can_undo: cu });
        taken = taken + 1;
    }
    proof {
        if taken < limit {
            assert(records@.len() == 0);
            assert(parsed.take(parsed.len() - taken).len() == 0);
            assert(taken == parsed.len());
        }
    }
    out
}

} // verus!
