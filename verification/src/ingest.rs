//! The per-record ingestion protocol, as a step machine.
//!
//! Every decision of the ingestion path lives here, verified: which store
//! round-trip comes next, which statements each transaction carries, and how
//! the schema mirror advances. The consumer loop around it only performs the
//! returned actions — it runs a read and hands back the rows, or runs a
//! transaction and reports its commit — and owns both the store connection
//! and the mirror exclusively, one record at a time.
//!
//! The mirror is advanced only when a commit is reported; a transaction that
//! fails is simply never reported, so the mirror never diverges from
//! committed store state, and the store error propagates to the loop, which
//! considers the record not ingested.

use vstd::prelude::*;

use crate::error::Error;
use crate::query::create_table::{
    alter_statements, spec_alter_text, spec_create_table_text, spec_hypertable_text, CreateTable,
};
use crate::query::insert_record::{spec_degraded_insert_text, spec_insert_text, InsertRecord};
use crate::query::pg_datatype::PGDatatype;
use crate::query::{Query, QueryType, ValidQuery};
use crate::helpers::spec_json_shaped;
use crate::record::{json_object_of, json_object_ok, parse_payload, record_view, Payload};
use crate::schema::{
    catalog_columns, cols_view, derive_columns, lemma_diff_after_extend, schema_difference,
    spec_catalog_schema, spec_derived_columns, spec_diff, Column, SchemaCache, TableSchema,
};
use crate::text::seq_join;
use crate::topic::{accept_event, slugify_topic, spec_accept, spec_topic_parts, table_name};

verus! {

broadcast use SchemaCache::lemma_table_has_implies_has_table;

/// One inbound record event after filtering: destination table, classified
/// payload, and whether time-partitioned conversion is enabled.
pub struct RecordJob {
    /// The destination table's name.
    pub table: String,
    /// The classified payload.
    pub payload: Payload,
    /// Whether new tables are converted to time-partitioned ones.
    pub timescale: bool,
}

/// Where one record's processing stands.
pub enum JobState {
    /// Nothing has been asked of the store yet.
    Start,
    /// The catalog read for a table the mirror does not know was issued.
    AwaitCatalog,
    /// The check whether the missing table is already time-partitioned was
    /// issued.
    AwaitHypertableCheck,
    /// The creation transaction was issued; its commit primes the mirror
    /// with these columns.
    AwaitCreate(Vec<Column>),
    /// The schema-evolution transaction was issued; its commit extends the
    /// mirror with these columns.
    AwaitAlter(Vec<Column>),
    /// The insert transaction was issued.
    AwaitInsert,
    /// The record is durably ingested.
    Finished,
}

/// What the store reported back for the last action.
pub enum StoreEvent {
    /// Processing of the record begins.
    Started,
    /// The rows of the catalog read: column name and type text per column.
    CatalogRows(Vec<(String, String)>),
    /// Whether the table is already time-partitioned.
    HypertableExists(bool),
    /// The issued transaction committed.
    Committed,
}

/// What the consumer loop must do next.
pub enum StoreAction {
    /// Run this read and hand its result back as the next event.
    Read(String),
    /// Run these statements, in order, inside one transaction, and report
    /// the commit as the next event.
    Transaction(Vec<ValidQuery>),
    /// The record is done; take the next event from the stream.
    Finish,
}

/// The catalog read that lists a table's columns, the reserved timestamp
/// column excluded.
pub open spec fn spec_catalog_query_text(table: Seq<char>) -> Seq<char> {
    "SELECT column_name, data_type FROM information_schema.columns where table_name = '"@ + table
        + "' AND column_name != 'time';"@
}

/// Renders the catalog read for `table`.
pub fn catalog_query(table: &String) -> (r: String)
    ensures
        r@ == spec_catalog_query_text(table@),
{
    let mut out = String::from_str(
        "SELECT column_name, data_type FROM information_schema.columns where table_name = '",
    );
    out.append(table.as_str());
    out.append("' AND column_name != 'time';");
    proof {
        assert(out@ =~= spec_catalog_query_text(table@));
    }
    out
}

/// The read that checks whether a table was already converted to a
/// time-partitioned one.
pub open spec fn spec_hypertable_check_text(table: Seq<char>) -> Seq<char> {
    "SELECT * FROM timescaledb_information.hypertables WHERE hypertable_name = '"@ + table + "';"@
}

/// Renders the time-partitioning check for `table`.
pub fn hypertable_check_query(table: &String) -> (r: String)
    ensures
        r@ == spec_hypertable_check_text(table@),
{
    let mut out = String::from_str(
        "SELECT * FROM timescaledb_information.hypertables WHERE hypertable_name = '",
    );
    out.append(table.as_str());
    out.append("';");
    proof {
        assert(out@ =~= spec_hypertable_check_text(table@));
    }
    out
}

/// The columns a job's payload contributes to a freshly created table: the
/// record's derived columns, or the single textual fallback column named
/// after the table for a payload that is not structured.
pub open spec fn spec_payload_columns(job: RecordJob) -> Seq<(Seq<char>, PGDatatype)> {
    match job.payload {
        Payload::Structured(rec) => spec_derived_columns(rec@),
        Payload::Raw(_) => seq![(job.table@, PGDatatype::Text)],
    }
}

/// The statement texts of the creation transaction.
pub open spec fn spec_create_texts(job: RecordJob, init_hypertable: bool) -> Seq<Seq<char>> {
    if init_hypertable {
        seq![
            spec_create_table_text(job.table@, spec_payload_columns(job)),
            spec_hypertable_text(job.table@),
        ]
    } else {
        seq![spec_create_table_text(job.table@, spec_payload_columns(job))]
    }
}

/// The text of the job's insert statement.
pub open spec fn spec_job_insert_text(job: RecordJob) -> Seq<char> {
    match job.payload {
        Payload::Structured(rec) => spec_insert_text(job.table@, rec@),
        Payload::Raw(bs) => spec_degraded_insert_text(job.table@, bs@),
    }
}

/// The columns the job's record mentions and the mirror does not yet record
/// for its table. A payload that is not structured derives no columns and
/// needs no schema change.
pub open spec fn spec_job_diff(job: RecordJob, cache: SchemaCache) -> Seq<(Seq<char>, PGDatatype)> {
    match job.payload {
        Payload::Structured(rec) => spec_diff(
            spec_derived_columns(rec@),
            cache.table_set(job.table@),
        ),
        Payload::Raw(_) => Seq::empty(),
    }
}

/// The texts of the schema-evolution statements for the columns `d`.
pub open spec fn spec_alter_texts(table: Seq<char>, d: Seq<(Seq<char>, PGDatatype)>) -> Seq<
    Seq<char>,
> {
    Seq::new(d.len(), |i: int| spec_alter_text(table, d[i]))
}

/// Whether `action` is one transaction carrying exactly the statements
/// `texts`, all tagged `kind`.
pub open spec fn spec_txn(action: StoreAction, texts: Seq<Seq<char>>, kind: QueryType) -> bool {
    action matches StoreAction::Transaction(v) && v@.len() == texts.len() && (forall|i: int|
        #![trigger v@[i].spec_text()]
        #![trigger v@[i].spec_kind()]
        0 <= i < texts.len() ==> v@[i].spec_text() == texts[i] && v@[i].spec_kind() == kind)
}

/// Whether `action` is the read `text`.
pub open spec fn spec_read(action: StoreAction, text: Seq<char>) -> bool {
    action matches StoreAction::Read(s) && s@ == text
}

/// Whether the step issued the job's insert transaction.
pub open spec fn spec_insert_result(job: RecordJob, next: JobState, action: StoreAction) -> bool {
    next matches JobState::AwaitInsert && spec_txn(
        action,
        seq![spec_job_insert_text(job)],
        QueryType::InsertRecord,
    )
}

/// Whether the step issued the creation transaction, remembering the
/// columns its commit will prime the mirror with.
pub open spec fn spec_create_result(
    job: RecordJob,
    init_hypertable: bool,
    next: JobState,
    action: StoreAction,
) -> bool {
    (next matches JobState::AwaitCreate(cols) && cols_view(cols@) == spec_payload_columns(job))
        && spec_txn(action, spec_create_texts(job, init_hypertable), QueryType::CreateTable)
}

/// Whether the step issued what a known table needs: the schema-evolution
/// transaction when the record brings new columns, else the insert itself.
pub open spec fn spec_dml_phase_result(
    job: RecordJob,
    cache: SchemaCache,
    next: JobState,
    action: StoreAction,
) -> bool {
    let d = spec_job_diff(job, cache);
    if d.len() > 0 {
        (next matches JobState::AwaitAlter(cols) && cols_view(cols@) == d) && spec_txn(
            action,
            spec_alter_texts(job.table@, d),
            QueryType::CreateTable,
        )
    } else {
        spec_insert_result(job, next, action)
    }
}

/// Whether two mirrors record the same tables and columns.
pub open spec fn spec_cache_unchanged(a: SchemaCache, b: SchemaCache) -> bool {
    (forall|t: Seq<char>| a.has_table(t) == b.has_table(t)) && (forall|
        t: Seq<char>,
        c: (Seq<char>, PGDatatype),
    |
        a.table_has(t, c) == b.table_has(t, c))
}

/// Which event each state awaits.
pub open spec fn spec_accepts(state: JobState, event: StoreEvent) -> bool {
    match (state, event) {
        (JobState::Start, StoreEvent::Started) => true,
        (JobState::AwaitCatalog, StoreEvent::CatalogRows(_)) => true,
        (JobState::AwaitHypertableCheck, StoreEvent::HypertableExists(_)) => true,
        (JobState::AwaitCreate(_), StoreEvent::Committed) => true,
        (JobState::AwaitAlter(_), StoreEvent::Committed) => true,
        (JobState::AwaitInsert, StoreEvent::Committed) => true,
        _ => false,
    }
}

/// What each state presumes of the mirror: the catalog and creation states
/// exist only while the mirror does not know the table, and the evolution
/// and insert states only once it does.
pub open spec fn spec_state_wf(job: RecordJob, state: JobState, cache: SchemaCache) -> bool {
    cache.wf() && match state {
        JobState::Start => true,
        JobState::AwaitCatalog => !cache.has_table(job.table@),
        JobState::AwaitHypertableCheck => !cache.has_table(job.table@),
        JobState::AwaitCreate(_) => !cache.has_table(job.table@),
        JobState::AwaitAlter(_) => cache.has_table(job.table@),
        JobState::AwaitInsert => cache.has_table(job.table@),
        JobState::Finished => true,
    }
}

/// Builds the job's insert transaction.
fn insert_step(job: &RecordJob) -> (r: (JobState, StoreAction))
    ensures
        spec_insert_result(*job, r.0, r.1),
{
    let builder = InsertRecord::new(job.table.clone(), &job.payload);
    proof {
        assert(builder.spec_build() =~= seq![spec_job_insert_text(*job)]);
    }
    match builder.build() {
        Ok(stmts) => (JobState::AwaitInsert, StoreAction::Transaction(stmts)),
        Err(_) => {
            proof {
                assert(false);
            }
            (JobState::AwaitInsert, StoreAction::Finish)
        },
    }
}

/// Builds the creation transaction and the columns its commit will prime
/// the mirror with.
fn create_action(job: &RecordJob, init_hypertable: bool) -> (r: (JobState, StoreAction))
    ensures
        spec_create_result(*job, init_hypertable, r.0, r.1),
{
    let builder = CreateTable::new(job.table.clone(), &job.payload, init_hypertable);
    proof {
        assert(builder.spec_columns() =~= spec_payload_columns(*job));
        assert(builder.spec_build() =~= spec_create_texts(*job, init_hypertable));
    }
    let prime_cols = match &job.payload {
        Payload::Structured(rec) => derive_columns(rec),
        Payload::Raw(_) => {
            let mut v: Vec<Column> = Vec::new();
            v.push((job.table.clone(), PGDatatype::Text));
            proof {
                assert(cols_view(v@) =~= seq![(job.table@, PGDatatype::Text)]);
            }
            v
        },
    };
    match builder.build() {
        Ok(stmts) => (JobState::AwaitCreate(prime_cols), StoreAction::Transaction(stmts)),
        Err(_) => {
            proof {
                assert(false);
            }
            (JobState::AwaitCreate(prime_cols), StoreAction::Finish)
        },
    }
}

/// What a known table needs next: the record's schema difference against
/// the mirror, as one schema-evolution transaction, or the insert itself
/// when the difference is empty.
fn dml_phase(job: &RecordJob, cache: &SchemaCache) -> (r: (JobState, StoreAction))
    requires
        cache.wf(),
        cache.has_table(job.table@),
    ensures
        spec_dml_phase_result(*job, *cache, r.0, r.1),
        spec_state_wf(*job, r.0, *cache),
{
    match &job.payload {
        Payload::Structured(rec) => {
            let cols = derive_columns(rec);
            let schema = match cache.lookup(&job.table) {
                Some(s) => s,
                None => {
                    proof {
                        assert(false);
                    }
                    return insert_step(job);
                },
            };
            let diff = schema_difference(&cols, schema);
            proof {
                assert(schema.col_set() =~= cache.table_set(job.table@));
                assert(cols_view(diff@) == spec_job_diff(*job, *cache));
            }
            if diff.len() > 0 {
                let stmts = alter_statements(&job.table, &diff);
                proof {
                    let d = spec_job_diff(*job, *cache);
                    assert(forall|i: int|
                        0 <= i < d.len() ==> #[trigger] stmts@[i].spec_text() == spec_alter_texts(
                            job.table@,
                            d,
                        )[i]);
                }
                (JobState::AwaitAlter(diff), StoreAction::Transaction(stmts))
            } else {
                insert_step(job)
            }
        },
        Payload::Raw(_) => insert_step(job),
    }
}

/// One step of the ingestion protocol: consumes the store's reply to the
/// previous action and decides the next one, advancing the schema mirror
/// exactly when a schema transaction's commit is reported.
///
/// The contract carries the two laws of the protocol. The ratchet: nothing
/// is ever removed from the mirror, whatever the step does. The ordering:
/// the insert transaction is issued only when the mirror records the job's
/// table, and for a table the mirror did not know, only by the step that
/// consumes a commit of the creation transaction or a catalog read that
/// proved the table already exists — so for a brand-new table the creation
/// statement is committed before any insert referencing it is attempted.
pub fn ingest_step(
    job: &RecordJob,
    state: JobState,
    event: StoreEvent,
    cache: &mut SchemaCache,
) -> (r: Result<(JobState, StoreAction), Error>)
    requires
        spec_accepts(state, event),
        spec_state_wf(*job, state, *old(cache)),
    ensures
        final(cache).wf(),
        forall|t: Seq<char>| old(cache).has_table(t) ==> final(cache).has_table(t),
        forall|t: Seq<char>, c: (Seq<char>, PGDatatype)|
            old(cache).table_has(t, c) ==> final(cache).table_has(t, c),
        r matches Ok(p) ==> spec_state_wf(*job, p.0, *final(cache)),
        r matches Err(_) ==> spec_cache_unchanged(*old(cache), *final(cache)),
        (r matches Ok(p) && spec_is_insert_txn(p.1)) ==> final(cache).has_table(job.table@),
        (r matches Ok(p) && spec_is_insert_txn(p.1) && !old(cache).has_table(job.table@)) ==> (
        (state matches JobState::AwaitCreate(_) && event matches StoreEvent::Committed) || (
        state matches JobState::AwaitCatalog && event matches StoreEvent::CatalogRows(rows)
            && spec_catalog_schema(rows@) matches Ok(cols) && cols.len() > 0)),
        match (state, event) {
            (JobState::Start, StoreEvent::Started) => spec_cache_unchanged(
                *old(cache),
                *final(cache),
            ) && if old(cache).has_table(job.table@) {
                r matches Ok(p) && spec_dml_phase_result(*job, *old(cache), p.0, p.1)
            } else {
                r matches Ok(p) && p.0 matches JobState::AwaitCatalog && spec_read(
                    p.1,
                    spec_catalog_query_text(job.table@),
                )
            },
            (JobState::AwaitCatalog, StoreEvent::CatalogRows(rows)) => {
                match spec_catalog_schema(rows@) {
                    Err(bad) => (r matches Err(e) && e matches Error::InvalidQueryError { error }
                        && error@ == bad),
                    Ok(cols) => if cols.len() > 0 {
                        final(cache).has_table(job.table@) && (forall|c: (Seq<char>, PGDatatype)|
                            final(cache).table_has(job.table@, c) == cols.contains(c)) && (forall|
                            t: Seq<char>,
                            c: (Seq<char>, PGDatatype),
                        |
                            t != job.table@ ==> final(cache).table_has(t, c) == old(
                                cache,
                            ).table_has(t, c)) && (r matches Ok(p) && spec_dml_phase_result(
                            *job,
                            *final(cache),
                            p.0,
                            p.1,
                        ))
                    } else {
                        spec_cache_unchanged(*old(cache), *final(cache)) && if job.timescale {
                            r matches Ok(p) && p.0 matches JobState::AwaitHypertableCheck
                                && spec_read(p.1, spec_hypertable_check_text(job.table@))
                        } else {
                            r matches Ok(p) && spec_create_result(*job, false, p.0, p.1)
                        }
                    },
                }
            },
            (JobState::AwaitHypertableCheck, StoreEvent::HypertableExists(already)) => {
                spec_cache_unchanged(*old(cache), *final(cache)) && (r matches Ok(p)
                    && spec_create_result(*job, !already, p.0, p.1))
            },
            (JobState::AwaitCreate(cols), StoreEvent::Committed) => {
                final(cache).has_table(job.table@) && (forall|c: (Seq<char>, PGDatatype)|
                    final(cache).table_has(job.table@, c) == cols_view(cols@).contains(c)) && (
                forall|t: Seq<char>, c: (Seq<char>, PGDatatype)|
                    t != job.table@ ==> final(cache).table_has(t, c) == old(cache).table_has(
                        t,
                        c,
                    )) && (r matches Ok(p) && spec_insert_result(*job, p.0, p.1))
            },
            (JobState::AwaitAlter(cols), StoreEvent::Committed) => {
                (forall|c: (Seq<char>, PGDatatype)|
                    final(cache).table_has(job.table@, c) == (old(cache).table_has(job.table@, c)
                        || cols_view(cols@).contains(c))) && (forall|
                    t: Seq<char>,
                    c: (Seq<char>, PGDatatype),
                |
                    t != job.table@ ==> final(cache).table_has(t, c) == old(cache).table_has(
                        t,
                        c,
                    )) && (forall|t: Seq<char>|
                    final(cache).has_table(t) == old(cache).has_table(t)) && (r matches Ok(p)
                    && spec_insert_result(*job, p.0, p.1))
            },
            (JobState::AwaitInsert, StoreEvent::Committed) => spec_cache_unchanged(
                *old(cache),
                *final(cache),
            ) && (r matches Ok(p) && p.0 matches JobState::Finished && p.1 matches
                StoreAction::Finish),
            _ => false,
        },
{
    match (state, event) {
        (JobState::Start, StoreEvent::Started) => {
            if cache.contains_table(&job.table) {
                Ok(dml_phase(job, &*cache))
            } else {
                Ok((JobState::AwaitCatalog, StoreAction::Read(catalog_query(&job.table))))
            }
        },
        (JobState::AwaitCatalog, StoreEvent::CatalogRows(rows)) => {
            match catalog_columns(&rows) {
                Err(e) => Err(e),
                Ok(cols) => {
                    if cols.len() > 0 {
                        let schema = TableSchema::from_columns(&cols);
                        let ghost schema_snap = schema;
                        cache.prime(job.table.clone(), schema);
                        proof {
                            broadcast use SchemaCache::lemma_table_has_implies_has_table;

                            assert forall|c: (Seq<char>, PGDatatype)|
                                cache.table_has(job.table@, c) == cols_view(cols@).contains(
                                    c,
                                ) by {
                                assert(cache.table_has(job.table@, c) == schema_snap.has(c));
                                assert(schema_snap.has(c) == cols_view(cols@).contains(c));
                            }
                        }
                        Ok(dml_phase(job, &*cache))
                    } else if job.timescale {
                        Ok(
                            (
                                JobState::AwaitHypertableCheck,
                                StoreAction::Read(hypertable_check_query(&job.table)),
                            ),
                        )
                    } else {
                        Ok(create_action(job, false))
                    }
                },
            }
        },
        (JobState::AwaitHypertableCheck, StoreEvent::HypertableExists(already)) => {
            Ok(create_action(job, !already))
        },
        (JobState::AwaitCreate(cols), StoreEvent::Committed) => {
            let schema = TableSchema::from_columns(&cols);
            let ghost schema_snap = schema;
            cache.prime(job.table.clone(), schema);
            proof {
                assert forall|c: (Seq<char>, PGDatatype)|
                    cache.table_has(job.table@, c) == cols_view(cols@).contains(c) by {
                    assert(cache.table_has(job.table@, c) == schema_snap.has(c));
                    assert(schema_snap.has(c) == cols_view(cols@).contains(c));
                }
            }
            Ok(insert_step(job))
        },
        (JobState::AwaitAlter(cols), StoreEvent::Committed) => {
            cache.extend(&job.table, &cols);
            Ok(insert_step(job))
        },
        (JobState::AwaitInsert, StoreEvent::Committed) => {
            Ok((JobState::Finished, StoreAction::Finish))
        },
        _ => {
            proof {
                assert(false);
            }
            Ok((JobState::Finished, StoreAction::Finish))
        },
    }
}

/// Whether `action` carries a data-manipulation statement.
pub open spec fn spec_is_insert_txn(action: StoreAction) -> bool {
    action matches StoreAction::Transaction(v) && exists|i: int|
        0 <= i < v@.len() && (#[trigger] v@[i].spec_kind()) == QueryType::InsertRecord
}

/// Idempotence of the schema-definition pass: once the mirror has been
/// extended with exactly the columns the first pass produced — which is
/// what the commit of the schema-evolution transaction does — the same
/// record's difference is empty, so a second pass for the same table and
/// record yields no statements and causes no needless round-trip.
pub proof fn lemma_ddl_idempotent(job: RecordJob, before: SchemaCache, after: SchemaCache)
    requires
        forall|c: (Seq<char>, PGDatatype)|
            (#[trigger] after.table_has(job.table@, c)) == (before.table_has(job.table@, c)
                || spec_job_diff(job, before).contains(c)),
    ensures
        spec_job_diff(job, after) == Seq::<(Seq<char>, PGDatatype)>::empty(),
{
    match job.payload {
        Payload::Structured(rec) => {
            let known = before.table_set(job.table@);
            let extended = after.table_set(job.table@);
            assert forall|c: (Seq<char>, PGDatatype)|
                extended.contains(c) == (known.contains(c) || spec_diff(
                    spec_derived_columns(rec@),
                    known,
                ).contains(c)) by {
                assert(spec_job_diff(job, before) == spec_diff(spec_derived_columns(rec@), known));
                assert(after.table_has(job.table@, c) == (before.table_has(job.table@, c)
                    || spec_job_diff(job, before).contains(c)));
                assert(extended.contains(c) == after.table_has(job.table@, c));
                assert(known.contains(c) == before.table_has(job.table@, c));
            }
            lemma_diff_after_extend(spec_derived_columns(rec@), known, extended);
        },
        Payload::Raw(_) => {},
    }
}

/// Classifies one inbound event: normalizes the topic, applies the event
/// filter — a filtered event causes no store interaction at all — names the
/// destination table, and parses the payload. For an accepted event, a
/// structured job comes back exactly when the payload is brace-delimited
/// and parses; a brace-delimited payload that does not parse is the parse
/// error; anything else becomes a raw job for the degraded insert path.
pub fn prepare_event(topic: &Vec<u8>, payload: Vec<u8>, dup: bool, retain: bool, timescale: bool)
    -> (r: Result<Option<RecordJob>, Error>)
    ensures
        match r {
            Ok(None) => !spec_accept(spec_topic_parts(topic@), dup, retain),
            Ok(Some(job)) => spec_accept(spec_topic_parts(topic@), dup, retain) && job.table@
                == seq_join(spec_topic_parts(topic@), "_"@) && job.timescale == timescale && (
            match job.payload {
                Payload::Raw(b) => !spec_json_shaped(payload@) && b@ == payload@,
                Payload::Structured(rec) => spec_json_shaped(payload@) && json_object_ok(payload@)
                    && record_view(rec@) == json_object_of(payload@) && (forall|i: int, j: int|
                    0 <= i < j < rec@.len() ==> rec@[i].0@ != rec@[j].0@),
            }),
            Err(e) => spec_accept(spec_topic_parts(topic@), dup, retain) && spec_json_shaped(
                payload@,
            ) && !json_object_ok(payload@) && e matches Error::JSONError { .. },
        },
{
    let parts = slugify_topic(topic);
    if !accept_event(&parts, dup, retain) {
        return Ok(None);
    }
    let table = table_name(&parts);
    match parse_payload(payload) {
        Ok(p) => Ok(Some(RecordJob { table, payload: p, timescale })),
        Err(e) => Err(e),
    }
}

} // verus!
