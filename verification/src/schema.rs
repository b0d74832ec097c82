//! The schema mirror: the known column composition of each destination
//! table, the derivation of a record's columns, and the difference that
//! drives schema evolution.

use vstd::prelude::*;

use crate::error::Error;
use crate::query::pg_datatype::PGDatatype;
use crate::record::{JsonValue, Record};

verus! {

/// One known column: field name and derived type.
pub type Column = (String, PGDatatype);

/// The mathematical shadow of a column: the name's characters and the type.
pub open spec fn col_view(c: Column) -> (Seq<char>, PGDatatype) {
    (c.0@, c.1)
}

/// The views of a column list, in order.
pub open spec fn cols_view(cols: Seq<Column>) -> Seq<(Seq<char>, PGDatatype)> {
    cols.map_values(|c: Column| col_view(c))
}

/// The set of column views a view sequence mentions.
pub open spec fn col_set_of(cols: Seq<(Seq<char>, PGDatatype)>) -> Set<(Seq<char>, PGDatatype)> {
    Set::new(|c: (Seq<char>, PGDatatype)| cols.contains(c))
}

/// The columns a record derives, in record order: each field whose value
/// maps to a column type contributes its name and that type; fields with
/// unsupported composite values are excluded without failing the record.
/// Field names are compared case-sensitively throughout.
pub open spec fn spec_derived_columns(rec: Seq<(String, JsonValue)>) -> Seq<
    (Seq<char>, PGDatatype),
>
    decreases rec.len(),
{
    if rec.len() == 0 {
        Seq::empty()
    } else {
        (match PGDatatype::spec_of_value(rec[0].1) {
            Some(t) => seq![(rec[0].0@, t)],
            None => Seq::empty(),
        }) + spec_derived_columns(rec.drop_first())
    }
}

proof fn lemma_derived_columns_push(rec: Seq<(String, JsonValue)>, f: (String, JsonValue))
    ensures
        spec_derived_columns(rec.push(f)) == spec_derived_columns(rec) + (match PGDatatype::spec_of_value(
            f.1,
        ) {
            Some(t) => seq![(f.0@, t)],
            None => Seq::empty(),
        }),
    decreases rec.len(),
{
    let tail: Seq<(Seq<char>, PGDatatype)> = match PGDatatype::spec_of_value(f.1) {
        Some(t) => seq![(f.0@, t)],
        None => Seq::empty(),
    };
    if rec.len() == 0 {
        assert(rec.push(f) =~= seq![f]);
        assert(seq![f].drop_first() =~= Seq::<(String, JsonValue)>::empty());
        assert(spec_derived_columns(Seq::<(String, JsonValue)>::empty())
            =~= Seq::<(Seq<char>, PGDatatype)>::empty());
        assert(spec_derived_columns(seq![f]) =~= tail);
        assert(spec_derived_columns(rec) + tail =~= tail);
    } else {
        assert(rec.push(f).drop_first() =~= rec.drop_first().push(f));
        lemma_derived_columns_push(rec.drop_first(), f);
        assert(spec_derived_columns(rec.push(f)) =~= spec_derived_columns(rec) + tail);
    }
}

/// Derives the record's columns, in record order.
pub fn derive_columns(rec: &Record) -> (r: Vec<Column>)
    ensures
        cols_view(r@) == spec_derived_columns(rec@),
{
    let mut out: Vec<Column> = Vec::new();
    let mut i: usize = 0;
    while i < rec.len()
        invariant
            i <= rec@.len(),
            cols_view(out@) == spec_derived_columns(rec@.take(i as int)),
        decreases rec@.len() - i,
    {
        let (name, value) = &rec[i];
        match PGDatatype::of_value(value) {
            Some(t) => {
                let col = (name.clone(), t);
                proof {
                    assert(col_view(col) == (rec@[i as int].0@, t));
                }
                out.push(col);
            },
            None => {},
        }
        proof {
            lemma_derived_columns_push(rec@.take(i as int), rec@[i as int]);
            assert(rec@.take(i + 1) =~= rec@.take(i as int).push(rec@[i as int]));
            assert(cols_view(out@) =~= spec_derived_columns(rec@.take(i + 1)));
        }
        i = i + 1;
    }
    proof {
        assert(rec@.take(rec@.len() as int) =~= rec@);
    }
    out
}

/// Tests whether a column list mentions a column, compared by view.
pub fn cols_contain(v: &Vec<Column>, name: &String, ty: PGDatatype) -> (r: bool)
    ensures
        r == cols_view(v@).contains((name@, ty)),
{
    let mut i: usize = 0;
    while i < v.len()
        invariant
            i <= v@.len(),
            forall|j: int| 0 <= j < i ==> cols_view(v@)[j] != (name@, ty),
        decreases v@.len() - i,
    {
        let entry = &v[i];
        if entry.0 == *name && entry.1 == ty {
            proof {
                assert(cols_view(v@)[i as int] == (name@, ty));
            }
            return true;
        }
        i = i + 1;
    }
    proof {
        assert(forall|j: int| 0 <= j < cols_view(v@).len() ==> cols_view(v@)[j] != (name@, ty));
    }
    false
}

proof fn lemma_contains_push<A>(s: Seq<A>, x: A)
    ensures
        forall|c: A| #[trigger] s.push(x).contains(c) == (s.contains(c) || c == x),
{
    assert forall|c: A| #[trigger] s.push(x).contains(c) == (s.contains(c) || c == x) by {
        if s.contains(c) {
            let i = choose|i: int| 0 <= i < s.len() && s[i] == c;
            assert(s.push(x)[i] == c);
        }
        assert(s.push(x)[s.len() as int] == x);
        if s.push(x).contains(c) {
            let i = choose|i: int| 0 <= i < s.push(x).len() && s.push(x)[i] == c;
            if i < s.len() {
                assert(s[i] == c);
            }
        }
    }
}

proof fn lemma_contains_concat<A>(a: Seq<A>, b: Seq<A>)
    ensures
        forall|c: A| #[trigger] (a + b).contains(c) == (a.contains(c) || b.contains(c)),
{
    assert forall|c: A| #[trigger] (a + b).contains(c) == (a.contains(c) || b.contains(c)) by {
        if a.contains(c) {
            let i = choose|i: int| 0 <= i < a.len() && a[i] == c;
            assert((a + b)[i] == c);
        }
        if b.contains(c) {
            let i = choose|i: int| 0 <= i < b.len() && b[i] == c;
            assert((a + b)[a.len() + i] == c);
        }
        if (a + b).contains(c) {
            let i = choose|i: int| 0 <= i < (a + b).len() && (a + b)[i] == c;
            if i < a.len() {
                assert(a[i] == c);
            } else {
                assert(b[i - a.len()] == c);
            }
        }
    }
}

/// The columns of `cols` that `known` lacks, in order, each kept once.
/// This is the difference that drives schema evolution: the columns the
/// record mentions and the mirror does not yet record.
pub open spec fn spec_diff(
    cols: Seq<(Seq<char>, PGDatatype)>,
    known: Set<(Seq<char>, PGDatatype)>,
) -> Seq<(Seq<char>, PGDatatype)>
    decreases cols.len(),
{
    if cols.len() == 0 {
        Seq::empty()
    } else if known.contains(cols[0]) {
        spec_diff(cols.drop_first(), known)
    } else {
        seq![cols[0]] + spec_diff(cols.drop_first(), known.insert(cols[0]))
    }
}

/// Computes the columns of `cols` that `known` does not record, in the
/// order `cols` gives them, without repetition. An empty result means the
/// record needs no schema change.
pub fn schema_difference(cols: &Vec<Column>, known: &TableSchema) -> (r: Vec<Column>)
    ensures
        cols_view(r@) == spec_diff(cols_view(cols@), known.col_set()),
{
    let ghost goal = spec_diff(cols_view(cols@), known.col_set());
    let mut out: Vec<Column> = Vec::new();
    let mut i: usize = 0;
    proof {
        assert(cols_view(cols@.skip(0)) =~= cols_view(cols@));
        assert(known.col_set().union(col_set_of(cols_view(out@))) =~= known.col_set());
        assert(cols_view(out@) + goal =~= goal);
    }
    while i < cols.len()
        invariant
            i <= cols@.len(),
            goal == cols_view(out@) + spec_diff(
                cols_view(cols@.skip(i as int)),
                known.col_set().union(col_set_of(cols_view(out@))),
            ),
            goal == spec_diff(cols_view(cols@), known.col_set()),
        decreases cols@.len() - i,
    {
        let ghost c = col_view(cols@[i as int]);
        let ghost rest = cols_view(cols@.skip(i as int));
        let ghost acc = known.col_set().union(col_set_of(cols_view(out@)));
        proof {
            assert(rest[0] == c);
            assert(rest.drop_first() =~= cols_view(cols@.skip(i + 1)));
        }
        let entry = &cols[i];
        let in_known = known.contains(&entry.0, entry.1);
        let in_out = cols_contain(&out, &entry.0, entry.1);
        if !in_known && !in_out {
            proof {
                assert(!acc.contains(c));
                assert(spec_diff(rest, acc) == seq![c] + spec_diff(rest.drop_first(), acc.insert(
                    c,
                )));
            }
            let ghost pre = out@;
            out.push((entry.0.clone(), entry.1));
            proof {
                assert(cols_view(out@) =~= cols_view(pre).push(c));
                lemma_contains_push(cols_view(pre), c);
                assert(col_set_of(cols_view(out@)) =~= col_set_of(cols_view(pre)).insert(c));
                assert(known.col_set().union(col_set_of(cols_view(out@))) =~= acc.insert(c));
                assert(cols_view(pre) + (seq![c] + spec_diff(rest.drop_first(), acc.insert(c)))
                    =~= cols_view(out@) + spec_diff(rest.drop_first(), acc.insert(c)));
            }
        } else {
            proof {
                assert(acc.contains(c));
                assert(spec_diff(rest, acc) == spec_diff(rest.drop_first(), acc));
            }
        }
        i = i + 1;
    }
    proof {
        assert(cols_view(cols@.skip(cols@.len() as int)) =~= Seq::<(Seq<char>, PGDatatype)>::empty());
        assert(goal =~= cols_view(out@));
    }
    out
}

/// Idempotence of schema evolution: once the known column set has been
/// extended with exactly the columns the difference produced, the same
/// record's difference is empty, so the builder yields no statements the
/// second time.
pub proof fn lemma_diff_after_extend(
    cols: Seq<(Seq<char>, PGDatatype)>,
    known: Set<(Seq<char>, PGDatatype)>,
    extended: Set<(Seq<char>, PGDatatype)>,
)
    requires
        forall|c: (Seq<char>, PGDatatype)|
            extended.contains(c) == (known.contains(c) || spec_diff(cols, known).contains(c)),
    ensures
        spec_diff(cols, extended) == Seq::<(Seq<char>, PGDatatype)>::empty(),
    decreases cols.len(),
{
    if cols.len() == 0 {
    } else {
        let c = cols[0];
        let tail = cols.drop_first();
        if known.contains(c) {
            assert(spec_diff(cols, known) == spec_diff(tail, known));
            lemma_diff_after_extend(tail, known, extended);
            assert(extended.contains(c));
            assert(spec_diff(cols, extended) == spec_diff(tail, extended));
        } else {
            let d_tail = spec_diff(tail, known.insert(c));
            assert(spec_diff(cols, known) == seq![c] + d_tail);
            assert((seq![c] + d_tail)[0] == c);
            assert(spec_diff(cols, known).contains(c));
            assert(extended.contains(c));
            lemma_contains_concat(seq![c], d_tail);
            assert forall|x: (Seq<char>, PGDatatype)|
                extended.contains(x) == (known.insert(c).contains(x) || d_tail.contains(x)) by {
                if x == c {
                } else {
                    assert(seq![c].contains(x) ==> seq![c][0] == x);
                }
            }
            lemma_diff_after_extend(tail, known.insert(c), extended);
            assert(spec_diff(cols, extended) == spec_diff(tail, extended));
        }
    }
}

/// The known column composition of one destination table: a set of columns,
/// unique by name and type.
pub struct TableSchema {
    cols: Vec<Column>,
}

impl TableSchema {
    /// Whether this schema records the column `c`.
    pub closed spec fn has(&self, c: (Seq<char>, PGDatatype)) -> bool {
        cols_view(self.cols@).contains(c)
    }

    /// The set of columns this schema records.
    pub open spec fn col_set(&self) -> Set<(Seq<char>, PGDatatype)> {
        Set::new(|c: (Seq<char>, PGDatatype)| self.has(c))
    }

    /// No column is recorded twice.
    pub closed spec fn wf(&self) -> bool {
        forall|i: int, j: int|
            0 <= i < j < self.cols@.len() ==> cols_view(self.cols@)[i] != cols_view(self.cols@)[j]
    }

    /// An empty schema.
    pub fn new() -> (r: TableSchema)
        ensures
            r.wf(),
            forall|c: (Seq<char>, PGDatatype)| !r.has(c),
    {
        TableSchema { cols: Vec::new() }
    }

    /// Builds a schema recording exactly the given columns, first
    /// occurrence kept when a column repeats.
    pub fn from_columns(cols: &Vec<Column>) -> (r: TableSchema)
        ensures
            r.wf(),
            forall|c: (Seq<char>, PGDatatype)| r.has(c) == cols_view(cols@).contains(c),
    {
        let mut schema = TableSchema::new();
        schema.add_columns(cols);
        schema
    }

    /// Tests whether the column `(name, ty)` is recorded.
    pub fn contains(&self, name: &String, ty: PGDatatype) -> (r: bool)
        ensures
            r == self.has((name@, ty)),
    {
        cols_contain(&self.cols, name, ty)
    }

    /// Records every given column that is not yet present. Only additive:
    /// no column is ever removed.
    pub fn add_columns(&mut self, cols: &Vec<Column>)
        requires
            old(self).wf(),
        ensures
            final(self).wf(),
            forall|c: (Seq<char>, PGDatatype)|
                final(self).has(c) == (old(self).has(c) || cols_view(cols@).contains(c)),
    {
        let mut i: usize = 0;
        while i < cols.len()
            invariant
                i <= cols@.len(),
                self.wf(),
                forall|c: (Seq<char>, PGDatatype)|
                    self.has(c) == (old(self).has(c) || cols_view(cols@.take(i as int)).contains(
                        c,
                    )),
            decreases cols@.len() - i,
        {
            let entry = &cols[i];
            let ghost pre = *self;
            let ghost cur = col_view(cols@[i as int]);
            if !cols_contain(&self.cols, &entry.0, entry.1) {
                let col = (entry.0.clone(), entry.1);
                proof {
                    assert(col_view(col) == cur);
                }
                self.cols.push(col);
                proof {
                    assert(cols_view(self.cols@) =~= cols_view(pre.cols@).push(cur));
                    lemma_contains_push(cols_view(pre.cols@), cur);
                    assert(forall|c: (Seq<char>, PGDatatype)|
                        self.has(c) == (pre.has(c) || c == cur));
                }
            } else {
                proof {
                    assert(self.has(cur));
                    assert(forall|c: (Seq<char>, PGDatatype)|
                        self.has(c) == (pre.has(c) || c == cur));
                }
            }
            proof {
                assert(cols_view(cols@.take(i + 1)) =~= cols_view(cols@.take(i as int)).push(cur));
                lemma_contains_push(cols_view(cols@.take(i as int)), cur);
                assert(forall|c: (Seq<char>, PGDatatype)|
                    cols_view(cols@.take(i + 1)).contains(c) == (cols_view(
                        cols@.take(i as int),
                    ).contains(c) || c == cur));
                assert forall|c: (Seq<char>, PGDatatype)|
                    self.has(c) == (old(self).has(c) || cols_view(cols@.take(i + 1)).contains(
                        c,
                    )) by {
                    assert(pre.has(c) == (old(self).has(c) || cols_view(
                        cols@.take(i as int),
                    ).contains(c)));
                    assert(self.has(c) == (pre.has(c) || c == cur));
                    assert(cols_view(cols@.take(i + 1)).contains(c) == (cols_view(
                        cols@.take(i as int),
                    ).contains(c) || c == cur));
                }
            }
            i = i + 1;
        }
        proof {
            assert(cols@.take(cols@.len() as int) =~= cols@);
        }
    }
}

/// The columns a catalog read yields: each row's column name with the type
/// its type text names, in row order, or the first type text the mirror
/// does not track.
pub open spec fn spec_catalog_schema(rows: Seq<(String, String)>) -> Result<
    Seq<(Seq<char>, PGDatatype)>,
    Seq<char>,
>
    decreases rows.len(),
{
    if rows.len() == 0 {
        Ok(Seq::empty())
    } else {
        match PGDatatype::spec_from_catalog_name(rows[0].1@) {
            None => Err(rows[0].1@),
            Some(t) => match spec_catalog_schema(rows.drop_first()) {
                Ok(rest) => Ok(seq![(rows[0].0@, t)] + rest),
                Err(e) => Err(e),
            },
        }
    }
}

proof fn lemma_catalog_schema_push(rows: Seq<(String, String)>, row: (String, String))
    ensures
        spec_catalog_schema(rows.push(row)) == match spec_catalog_schema(rows) {
            Ok(cs) => match PGDatatype::spec_from_catalog_name(row.1@) {
                Some(t) => Ok::<Seq<(Seq<char>, PGDatatype)>, Seq<char>>(cs + seq![(row.0@, t)]),
                None => Err(row.1@),
            },
            Err(e) => Err(e),
        },
    decreases rows.len(),
{
    if rows.len() == 0 {
        assert(rows.push(row) =~= seq![row]);
        assert(seq![row].drop_first() =~= Seq::<(String, String)>::empty());
        assert(spec_catalog_schema(Seq::<(String, String)>::empty())
            == Ok::<Seq<(Seq<char>, PGDatatype)>, Seq<char>>(Seq::empty()));
        match PGDatatype::spec_from_catalog_name(row.1@) {
            Some(t) => {
                assert(spec_catalog_schema(seq![row]) == Ok::<Seq<(Seq<char>, PGDatatype)>, Seq<char>>(
                    seq![(row.0@, t)] + Seq::empty(),
                ));
                assert(seq![(row.0@, t)] + Seq::<(Seq<char>, PGDatatype)>::empty()
                    =~= Seq::<(Seq<char>, PGDatatype)>::empty() + seq![(row.0@, t)]);
            },
            None => {},
        }
    } else {
        assert(rows.push(row).drop_first() =~= rows.drop_first().push(row));
        lemma_catalog_schema_push(rows.drop_first(), row);
        match (
            PGDatatype::spec_from_catalog_name(rows[0].1@),
            spec_catalog_schema(rows.drop_first()),
        ) {
            (Some(t0), Ok(rest)) => {
                match PGDatatype::spec_from_catalog_name(row.1@) {
                    Some(t) => {
                        assert(seq![(rows[0].0@, t0)] + (rest + seq![(row.0@, t)])
                            =~= (seq![(rows[0].0@, t0)] + rest) + seq![(row.0@, t)]);
                    },
                    None => {},
                }
            },
            _ => {},
        }
    }
}

proof fn lemma_catalog_schema_err_persists(rows: Seq<(String, String)>, i: int, e: Seq<char>)
    requires
        0 <= i <= rows.len(),
        spec_catalog_schema(rows.take(i)) == Err::<Seq<(Seq<char>, PGDatatype)>, Seq<char>>(e),
    ensures
        spec_catalog_schema(rows) == Err::<Seq<(Seq<char>, PGDatatype)>, Seq<char>>(e),
    decreases rows.len() - i,
{
    if i < rows.len() {
        lemma_catalog_schema_push(rows.take(i), rows[i]);
        assert(rows.take(i + 1) =~= rows.take(i).push(rows[i]));
        lemma_catalog_schema_err_persists(rows, i + 1, e);
    } else {
        assert(rows.take(rows.len() as int) =~= rows);
    }
}

/// Converts the rows of a catalog read — column name and type text — into
/// the columns to prime the mirror with. A row whose type text the mirror
/// does not track makes the whole read invalid, and the error carries that
/// type text.
pub fn catalog_columns(rows: &Vec<(String, String)>) -> (r: Result<Vec<Column>, Error>)
    ensures
        match r {
            Ok(cols) => spec_catalog_schema(rows@) == Ok::<Seq<(Seq<char>, PGDatatype)>, Seq<char>>(
                cols_view(cols@),
            ),
            Err(e) => e matches Error::InvalidQueryError { error } && spec_catalog_schema(rows@)
                == Err::<Seq<(Seq<char>, PGDatatype)>, Seq<char>>(error@),
        },
{
    let mut out: Vec<Column> = Vec::new();
    let mut i: usize = 0;
    proof {
        assert(spec_catalog_schema(rows@.take(0)) == Ok::<Seq<(Seq<char>, PGDatatype)>, Seq<char>>(
            Seq::empty(),
        ));
        assert(cols_view(out@) =~= Seq::<(Seq<char>, PGDatatype)>::empty());
    }
    while i < rows.len()
        invariant
            i <= rows@.len(),
            spec_catalog_schema(rows@.take(i as int)) == Ok::<
                Seq<(Seq<char>, PGDatatype)>,
                Seq<char>,
            >(cols_view(out@)),
        decreases rows@.len() - i,
    {
        let row = &rows[i];
        proof {
            lemma_catalog_schema_push(rows@.take(i as int), rows@[i as int]);
            assert(rows@.take(i + 1) =~= rows@.take(i as int).push(rows@[i as int]));
        }
        match PGDatatype::from_catalog_name(&row.1) {
            Some(t) => {
                let ghost pre = out@;
                out.push((row.0.clone(), t));
                proof {
                    assert(cols_view(out@) =~= cols_view(pre).push((rows@[i as int].0@, t)));
                    assert(cols_view(pre) + seq![(rows@[i as int].0@, t)] =~= cols_view(out@));
                }
            },
            None => {
                proof {
                    lemma_catalog_schema_err_persists(rows@, i + 1, rows@[i as int].1@);
                }
                return Err(Error::InvalidQueryError { error: row.1.clone() });
            },
        }
        i = i + 1;
    }
    proof {
        assert(rows@.take(rows@.len() as int) =~= rows@);
    }
    Ok(out)
}

/// The process-wide schema mirror: a mapping from table name to the known
/// column composition of that table. It is always a cache over the store's
/// authoritative catalog, never the source of truth: entries are installed
/// from a catalog read or right after table creation, grow additively after
/// a committed schema change, and are never removed or shrunk.
pub struct SchemaCache {
    entries: Vec<(String, TableSchema)>,
}

impl SchemaCache {
    /// Whether the mirror holds an entry for table `t`.
    pub closed spec fn has_table(&self, t: Seq<char>) -> bool {
        exists|i: int| 0 <= i < self.entries@.len() && self.entries@[i].0@ == t
    }

    /// Whether the mirror records column `c` for table `t`.
    pub closed spec fn table_has(&self, t: Seq<char>, c: (Seq<char>, PGDatatype)) -> bool {
        exists|i: int|
            0 <= i < self.entries@.len() && self.entries@[i].0@ == t && self.entries@[i].1.has(c)
    }

    /// The set of columns the mirror records for table `t`.
    pub open spec fn table_set(&self, t: Seq<char>) -> Set<(Seq<char>, PGDatatype)> {
        Set::new(|c: (Seq<char>, PGDatatype)| self.table_has(t, c))
    }

    /// Each table appears once and each entry's schema is well formed.
    pub closed spec fn wf(&self) -> bool {
        (forall|i: int, j: int|
            0 <= i < j < self.entries@.len() ==> self.entries@[i].0@ != self.entries@[j].0@)
            && (forall|i: int| 0 <= i < self.entries@.len() ==> self.entries@[i].1.wf())
    }

    /// A recorded column presumes a recorded table.
    pub broadcast proof fn lemma_table_has_implies_has_table(
        &self,
        t: Seq<char>,
        c: (Seq<char>, PGDatatype),
    )
        ensures
            #[trigger] self.table_has(t, c) ==> self.has_table(t),
    {
        if self.table_has(t, c) {
            let i = choose|i: int|
                0 <= i < self.entries@.len() && self.entries@[i].0@ == t && self.entries@[i].1.has(
                    c,
                );
            assert(0 <= i < self.entries@.len() && self.entries@[i].0@ == t);
        }
    }

    /// An empty mirror, as a process starts with.
    pub fn new() -> (r: SchemaCache)
        ensures
            r.wf(),
            forall|t: Seq<char>| !r.has_table(t),
    {
        SchemaCache { entries: Vec::new() }
    }

    /// The index of table `table`'s entry, if the mirror has one.
    fn find(&self, table: &String) -> (r: Option<usize>)
        ensures
            match r {
                Some(i) => i < self.entries@.len() && self.entries@[i as int].0@ == table@,
                None => !self.has_table(table@),
            },
    {
        let mut i: usize = 0;
        while i < self.entries.len()
            invariant
                i <= self.entries@.len(),
                forall|j: int| 0 <= j < i ==> self.entries@[j].0@ != table@,
            decreases self.entries@.len() - i,
        {
            if self.entries[i].0 == *table {
                return Some(i);
            }
            i = i + 1;
        }
        None
    }

    /// A pure read: whether the mirror knows table `table`.
    pub fn contains_table(&self, table: &String) -> (r: bool)
        ensures
            r == self.has_table(table@),
    {
        match self.find(table) {
            Some(i) => {
                proof {
                    assert(self.entries@[i as int].0@ == table@);
                }
                true
            },
            None => false,
        }
    }

    /// A pure read: the known schema of table `table`, or absent.
    pub fn lookup(&self, table: &String) -> (r: Option<&TableSchema>)
        ensures
            match r {
                Some(s) => self.has_table(table@) && (self.wf() ==> s.wf() && (forall|
                    c: (Seq<char>, PGDatatype),
                |
                    s.has(c) == self.table_has(table@, c))),
                None => !self.has_table(table@),
            },
    {
        match self.find(table) {
            Some(i) => {
                let ghost idx = i as int;
                proof {
                    assert(self.entries@[idx].0@ == table@);
                    if self.wf() {
                        assert forall|c: (Seq<char>, PGDatatype)|
                            self.entries@[idx].1.has(c) == self.table_has(table@, c) by {
                            if self.table_has(table@, c) {
                                let j = choose|j: int|
                                    0 <= j < self.entries@.len() && self.entries@[j].0@ == table@
                                        && self.entries@[j].1.has(c);
                                assert(j == idx);
                            }
                        }
                    }
                }
                Some(&self.entries[i].1)
            },
            None => None,
        }
    }

    /// Installs a schema for a table with no prior entry, after a catalog
    /// read or right after table creation. Callers must check first: the
    /// mirror must not already know the table.
    pub fn prime(&mut self, table: String, schema: TableSchema)
        requires
            old(self).wf(),
            schema.wf(),
            !old(self).has_table(table@),
        ensures
            final(self).wf(),
            forall|t: Seq<char>|
                final(self).has_table(t) == (old(self).has_table(t) || t == table@),
            forall|c: (Seq<char>, PGDatatype)| final(self).table_has(table@, c) == schema.has(c),
            forall|t: Seq<char>, c: (Seq<char>, PGDatatype)|
                t != table@ ==> final(self).table_has(t, c) == old(self).table_has(t, c),
    {
        let ghost pre = self.entries@;
        let ghost tv = table@;
        self.entries.push((table, schema));
        proof {
            let post = self.entries@;
            let n = pre.len() as int;
            assert(post[n].0@ == tv && post[n].1 == schema);
            assert(forall|j: int| 0 <= j < n ==> post[j] == pre[j]);
            assert(self.has_table(tv));
            assert forall|t: Seq<char>|
                self.has_table(t) == (old(self).has_table(t) || t == tv) by {
                if old(self).has_table(t) {
                    let j = choose|j: int| 0 <= j < n && pre[j].0@ == t;
                    assert(post[j].0@ == t);
                }
                if self.has_table(t) && t != tv {
                    let j = choose|j: int| 0 <= j < post.len() && post[j].0@ == t;
                    assert(j < n && pre[j].0@ == t);
                }
            }
            assert forall|c: (Seq<char>, PGDatatype)|
                self.table_has(tv, c) == schema.has(c) by {
                if self.table_has(tv, c) {
                    let j = choose|j: int|
                        0 <= j < post.len() && post[j].0@ == tv && post[j].1.has(c);
                    if j < n {
                        assert(pre[j].0@ == tv);
                        assert(old(self).has_table(tv));
                    }
                }
                if schema.has(c) {
                    assert(post[n].0@ == tv && post[n].1.has(c));
                }
            }
            assert forall|t: Seq<char>, c: (Seq<char>, PGDatatype)| t != tv implies self.table_has(
                t,
                c,
            ) == old(self).table_has(t, c) by {
                if old(self).table_has(t, c) {
                    let j = choose|j: int| 0 <= j < n && pre[j].0@ == t && pre[j].1.has(c);
                    assert(post[j].0@ == t && post[j].1.has(c));
                }
                if self.table_has(t, c) {
                    let j = choose|j: int|
                        0 <= j < post.len() && post[j].0@ == t && post[j].1.has(c);
                    assert(j < n);
                    assert(pre[j].0@ == t && pre[j].1.has(c));
                }
            }
        }
    }

    /// Adds columns to an existing entry after a committed schema change.
    /// Only additive: the one-way schema-evolution ratchet — once a column
    /// is observed it is assumed to exist forever, even if later records
    /// omit it.
    pub fn extend(&mut self, table: &String, new_cols: &Vec<Column>)
        requires
            old(self).wf(),
            old(self).has_table(table@),
        ensures
            final(self).wf(),
            forall|t: Seq<char>| final(self).has_table(t) == old(self).has_table(t),
            forall|c: (Seq<char>, PGDatatype)|
                final(self).table_has(table@, c) == (old(self).table_has(table@, c) || cols_view(
                    new_cols@,
                ).contains(c)),
            forall|c: (Seq<char>, PGDatatype)|
                old(self).table_has(table@, c) ==> final(self).table_has(table@, c),
            forall|t: Seq<char>, c: (Seq<char>, PGDatatype)|
                t != table@ ==> final(self).table_has(t, c) == old(self).table_has(t, c),
    {
        let found = self.find(table);
        let i = match found {
            Some(i) => i,
            None => {
                proof {
                    assert(false);
                }
                return ;
            },
        };
        let ghost pre = self.entries@;
        let ghost tv = table@;
        let ghost idx = i as int;
        proof {
            assert forall|c: (Seq<char>, PGDatatype)|
                old(self).table_has(tv, c) == pre[idx].1.has(c) by {
                if old(self).table_has(tv, c) {
                    let j = choose|j: int|
                        0 <= j < pre.len() && pre[j].0@ == tv && pre[j].1.has(c);
                    assert(j == idx);
                }
            }
        }
        let mut entry = self.entries.remove(i);
        entry.1.add_columns(new_cols);
        let ghost updated = entry.1;
        self.entries.push(entry);
        proof {
            let post = self.entries@;
            let n = pre.len() as int;
            assert(post.len() == n);
            assert(post[n - 1].0@ == tv);
            assert(forall|j: int| 0 <= j < idx ==> post[j] == pre[j]);
            assert(forall|j: int| idx <= j < n - 1 ==> post[j] == pre[j + 1]);
            assert forall|t: Seq<char>| self.has_table(t) == old(self).has_table(t) by {
                if old(self).has_table(t) {
                    let j = choose|j: int| 0 <= j < n && pre[j].0@ == t;
                    if j == idx {
                        assert(post[n - 1].0@ == t);
                    } else if j < idx {
                        assert(post[j].0@ == t);
                    } else {
                        assert(post[j - 1].0@ == t);
                    }
                }
                if self.has_table(t) {
                    let j = choose|j: int| 0 <= j < n && post[j].0@ == t;
                    if j == n - 1 {
                        assert(pre[idx].0@ == t);
                    } else if j < idx {
                        assert(pre[j].0@ == t);
                    } else {
                        assert(pre[j + 1].0@ == t);
                    }
                }
            }
            assert forall|j: int, k: int| 0 <= j < k < n implies post[j].0@ != post[k].0@ by {
                let pj = if j < idx {
                    j
                } else if j == n - 1 {
                    idx
                } else {
                    j + 1
                };
                let pk = if k < idx {
                    k
                } else if k == n - 1 {
                    idx
                } else {
                    k + 1
                };
                assert(post[j].0@ == pre[pj].0@);
                assert(post[k].0@ == pre[pk].0@);
            }
            assert forall|c: (Seq<char>, PGDatatype)|
                self.table_has(tv, c) == (old(self).table_has(tv, c) || cols_view(
                    new_cols@,
                ).contains(c)) by {
                assert(post[n - 1].1 == updated);
                if self.table_has(tv, c) {
                    let j = choose|j: int|
                        0 <= j < n && post[j].0@ == tv && post[j].1.has(c);
                    assert(j == n - 1);
                }
                if old(self).table_has(tv, c) || cols_view(new_cols@).contains(c) {
                    assert(updated.has(c));
                    assert(post[n - 1].0@ == tv && post[n - 1].1.has(c));
                }
            }
            assert forall|t: Seq<char>, c: (Seq<char>, PGDatatype)| t != tv implies self.table_has(
                t,
                c,
            ) == old(self).table_has(t, c) by {
                if old(self).table_has(t, c) {
                    let j = choose|j: int|
                        0 <= j < n && pre[j].0@ == t && pre[j].1.has(c);
                    if j < idx {
                        assert(post[j].0@ == t && post[j].1.has(c));
                    } else {
                        assert(j > idx);
                        assert(post[j - 1].0@ == t && post[j - 1].1.has(c));
                    }
                }
                if self.table_has(t, c) {
                    let j = choose|j: int|
                        0 <= j < n && post[j].0@ == t && post[j].1.has(c);
                    if j < idx {
                        assert(pre[j].0@ == t && pre[j].1.has(c));
                    } else {
                        assert(j < n - 1);
                        assert(pre[j + 1].0@ == t && pre[j + 1].1.has(c));
                    }
                }
            }
        }
    }
}

} // verus!
