//! Table creation statement builder: the schema-definition side of the
//! ingestion path for a table the store does not have yet, and the ALTER
//! statements that catch an existing table up with a record's new columns.

use vstd::prelude::*;

use crate::error::Error;
use crate::query::pg_datatype::PGDatatype;
use crate::query::{Query, QueryType, ValidQuery};
use crate::record::Payload;
use crate::schema::{cols_view, spec_derived_columns, Column, col_view, derive_columns};

verus! {

/// The column clause of a creation statement: `, <name> <type>` for each
/// column, in order.
pub open spec fn spec_cols_clause(cols: Seq<(Seq<char>, PGDatatype)>) -> Seq<char>
    decreases cols.len(),
{
    if cols.len() == 0 {
        Seq::empty()
    } else {
        ", "@ + cols[0].0 + " "@ + cols[0].1.spec_render() + spec_cols_clause(cols.drop_first())
    }
}

proof fn lemma_cols_clause_push(cols: Seq<(Seq<char>, PGDatatype)>, c: (Seq<char>, PGDatatype))
    ensures
        spec_cols_clause(cols.push(c)) == spec_cols_clause(cols) + (", "@ + c.0 + " "@
            + c.1.spec_render()),
    decreases cols.len(),
{
    let piece = ", "@ + c.0 + " "@ + c.1.spec_render();
    if cols.len() == 0 {
        assert(cols.push(c) =~= seq![c]);
        assert(seq![c].drop_first() =~= Seq::<(Seq<char>, PGDatatype)>::empty());
        assert(spec_cols_clause(Seq::<(Seq<char>, PGDatatype)>::empty()) =~= Seq::<char>::empty());
        assert(spec_cols_clause(seq![c]) =~= piece);
        assert(spec_cols_clause(cols) + piece =~= piece);
    } else {
        assert(cols.push(c).drop_first() =~= cols.drop_first().push(c));
        lemma_cols_clause_push(cols.drop_first(), c);
        assert(spec_cols_clause(cols.push(c)) =~= spec_cols_clause(cols) + piece);
    }
}

/// The full creation statement for a table: a reserved leading timestamp
/// column with a default, then one column per derived field.
pub open spec fn spec_create_table_text(
    table: Seq<char>,
    cols: Seq<(Seq<char>, PGDatatype)>,
) -> Seq<char> {
    "CREATE TABLE IF NOT EXISTS "@ + table + " (time TIMESTAMPTZ NOT NULL DEFAULT now()"@
        + spec_cols_clause(cols) + ");"@
}

/// The statement that converts a table into a time-partitioned one.
pub open spec fn spec_hypertable_text(table: Seq<char>) -> Seq<char> {
    "SELECT create_hypertable('"@ + table + "', by_range('time'), migrate_data => true);"@
}

/// One schema-evolution statement: adds one newly observed column.
pub open spec fn spec_alter_text(table: Seq<char>, col: (Seq<char>, PGDatatype)) -> Seq<char> {
    "ALTER TABLE "@ + table + " ADD COLUMN "@ + col.0 + " "@ + col.1.spec_render() + ";"@
}

/// Renders the creation statement for `table` with the given columns.
fn render_create_table(table: &String, cols: &Vec<Column>) -> (r: String)
    ensures
        r@ == spec_create_table_text(table@, cols_view(cols@)),
{
    let mut out = String::from_str("CREATE TABLE IF NOT EXISTS ");
    out.append(table.as_str());
    out.append(" (time TIMESTAMPTZ NOT NULL DEFAULT now()");
    let ghost prefix = out@;
    let mut i: usize = 0;
    proof {
        assert(spec_cols_clause(cols_view(cols@.take(0))) =~= Seq::<char>::empty());
        assert(out@ =~= prefix + spec_cols_clause(cols_view(cols@.take(0))));
    }
    while i < cols.len()
        invariant
            i <= cols@.len(),
            out@ == prefix + spec_cols_clause(cols_view(cols@.take(i as int))),
        decreases cols@.len() - i,
    {
        let entry = &cols[i];
        out.append(", ");
        out.append(entry.0.as_str());
        out.append(" ");
        out.append(entry.1.render());
        proof {
            lemma_cols_clause_push(cols_view(cols@.take(i as int)), col_view(cols@[i as int]));
            assert(cols_view(cols@.take(i + 1)) =~= cols_view(cols@.take(i as int)).push(
                col_view(cols@[i as int]),
            ));
            assert(out@ =~= prefix + spec_cols_clause(cols_view(cols@.take(i + 1))));
        }
        i = i + 1;
    }
    proof {
        assert(cols@.take(cols@.len() as int) =~= cols@);
    }
    out.append(");");
    proof {
        assert(out@ =~= spec_create_table_text(table@, cols_view(cols@)));
    }
    out
}

/// Renders the time-partitioning conversion statement for `table`.
fn render_hypertable(table: &String) -> (r: String)
    ensures
        r@ == spec_hypertable_text(table@),
{
    let mut out = String::from_str("SELECT create_hypertable('");
    out.append(table.as_str());
    out.append("', by_range('time'), migrate_data => true);");
    proof {
        assert(out@ =~= spec_hypertable_text(table@));
    }
    out
}

/// Renders one `ALTER TABLE ... ADD COLUMN` statement per given column, in
/// the given order, all tagged as schema definition. An empty column list
/// yields no statements.
pub fn alter_statements(table: &String, new_cols: &Vec<Column>) -> (r: Vec<ValidQuery>)
    ensures
        r@.len() == new_cols@.len(),
        forall|i: int|
            0 <= i < r@.len() ==> r@[i].spec_text() == spec_alter_text(
                table@,
                cols_view(new_cols@)[i],
            ) && r@[i].spec_kind() == QueryType::CreateTable,
{
    let mut out: Vec<ValidQuery> = Vec::new();
    let mut i: usize = 0;
    while i < new_cols.len()
        invariant
            i <= new_cols@.len(),
            out@.len() == i,
            forall|j: int|
                0 <= j < i ==> out@[j].spec_text() == spec_alter_text(
                    table@,
                    cols_view(new_cols@)[j],
                ) && out@[j].spec_kind() == QueryType::CreateTable,
        decreases new_cols@.len() - i,
    {
        let entry = &new_cols[i];
        let mut text = String::from_str("ALTER TABLE ");
        text.append(table.as_str());
        text.append(" ADD COLUMN ");
        text.append(entry.0.as_str());
        text.append(" ");
        text.append(entry.1.render());
        text.append(";");
        proof {
            assert(text@ =~= spec_alter_text(table@, col_view(new_cols@[i as int])));
        }
        out.push(ValidQuery::new(text, QueryType::CreateTable));
        i = i + 1;
    }
    out
}

/// Builds the statements that create one destination table.
///
/// A structured payload contributes one column per derived field; a payload
/// that is not structured falls back to a single textual column named after
/// the table, so no message is ever dropped for its shape. When requested,
/// a second statement converts the new table into a time-partitioned one,
/// after the base creation statement.
pub struct CreateTable<'a> {
    /// The destination table.
    pub table_name: String,
    /// The record this table is created for.
    pub payload: &'a Payload,
    /// Whether to append the time-partitioning conversion statement.
    pub init_hypertable: bool,
}

impl<'a> CreateTable<'a> {
    /// The columns the creation statement lists for this payload.
    pub open spec fn spec_columns(&self) -> Seq<(Seq<char>, PGDatatype)> {
        match *self.payload {
            Payload::Structured(rec) => spec_derived_columns(rec@),
            Payload::Raw(_) => seq![(self.table_name@, PGDatatype::Text)],
        }
    }

    /// Creates a new [`CreateTable`] builder.
    pub fn new(table_name: String, payload: &'a Payload, init_hypertable: bool) -> (r: CreateTable<
        'a,
    >)
        ensures
            r.table_name == table_name,
            r.payload == payload,
            r.init_hypertable == init_hypertable,
    {
        CreateTable { table_name, payload, init_hypertable }
    }
}

impl<'a> Query for CreateTable<'a> {
    open spec fn spec_build(&self) -> Seq<Seq<char>> {
        if self.init_hypertable {
            seq![
                spec_create_table_text(self.table_name@, self.spec_columns()),
                spec_hypertable_text(self.table_name@),
            ]
        } else {
            seq![spec_create_table_text(self.table_name@, self.spec_columns())]
        }
    }

    open spec fn spec_query_type(&self) -> QueryType {
        QueryType::CreateTable
    }

    fn build(&self) -> (r: Result<Vec<ValidQuery>, Error>) {
        let base = match self.payload {
            Payload::Structured(rec) => {
                let cols = derive_columns(rec);
                render_create_table(&self.table_name, &cols)
            },
            Payload::Raw(_) => {
                let mut cols: Vec<Column> = Vec::new();
                cols.push((self.table_name.clone(), PGDatatype::Text));
                proof {
                    assert(cols_view(cols@) =~= seq![(self.table_name@, PGDatatype::Text)]);
                }
                render_create_table(&self.table_name, &cols)
            },
        };
        let mut queries: Vec<ValidQuery> = Vec::new();
        queries.push(ValidQuery::new(base, QueryType::CreateTable));
        if self.init_hypertable {
            let extra = render_hypertable(&self.table_name);
            queries.push(ValidQuery::new(extra, QueryType::CreateTable));
        }
        Ok(queries)
    }

    fn get_type(&self) -> (r: QueryType) {
        QueryType::CreateTable
    }
}

} // verus!
