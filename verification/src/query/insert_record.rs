//! Record insertion statement builder: the data-manipulation side of the
//! ingestion path.

use vstd::prelude::*;

use crate::error::Error;
use crate::query::{Query, QueryType, ValidQuery};
use crate::record::{JsonValue, Payload};
use crate::text::{
    ascii_chars_of, escape_bytes_string, join_strings, seq_join, spec_escape_bytes, spec_sql_escape,
    sql_escape, views_of,
};

verus! {

/// The rendered literal of one resolved value: numbers and booleans stand
/// unquoted; strings are quoted with every inner quote doubled; an explicit
/// null is stored as the quoted text of its rendering. Values are embedded
/// as literals, so quoting is the hardening the embedding needs.
pub open spec fn spec_value_text(v: JsonValue) -> Seq<char> {
    match v {
        JsonValue::Number(s) => s@,
        JsonValue::Bool(b) => if b {
            "true"@
        } else {
            "false"@
        },
        JsonValue::Text(s) => "'"@ + spec_sql_escape(s@) + "'"@,
        JsonValue::Null => "'null'"@,
        JsonValue::Composite => Seq::empty(),
    }
}

/// The column names an insert statement lists: every field whose type was
/// resolved, in record order; unsupported composite fields are omitted,
/// matching the creation builder's omission policy.
pub open spec fn spec_insert_keys(rec: Seq<(String, JsonValue)>) -> Seq<Seq<char>>
    decreases rec.len(),
{
    if rec.len() == 0 {
        Seq::empty()
    } else {
        (match rec[0].1 {
            JsonValue::Composite => Seq::empty(),
            _ => seq![rec[0].0@],
        }) + spec_insert_keys(rec.drop_first())
    }
}

/// The rendered values an insert statement lists, in the same order as the
/// keys.
pub open spec fn spec_insert_values(rec: Seq<(String, JsonValue)>) -> Seq<Seq<char>>
    decreases rec.len(),
{
    if rec.len() == 0 {
        Seq::empty()
    } else {
        (match rec[0].1 {
            JsonValue::Composite => Seq::empty(),
            v => seq![spec_value_text(v)],
        }) + spec_insert_values(rec.drop_first())
    }
}

proof fn lemma_insert_keys_push(rec: Seq<(String, JsonValue)>, f: (String, JsonValue))
    ensures
        spec_insert_keys(rec.push(f)) == spec_insert_keys(rec) + (match f.1 {
            JsonValue::Composite => Seq::empty(),
            _ => seq![f.0@],
        }),
    decreases rec.len(),
{
    let tail: Seq<Seq<char>> = match f.1 {
        JsonValue::Composite => Seq::empty(),
        _ => seq![f.0@],
    };
    if rec.len() == 0 {
        assert(rec.push(f) =~= seq![f]);
        assert(seq![f].drop_first() =~= Seq::<(String, JsonValue)>::empty());
        assert(spec_insert_keys(Seq::<(String, JsonValue)>::empty()) =~= Seq::<Seq<char>>::empty());
        assert(spec_insert_keys(seq![f]) =~= tail);
        assert(spec_insert_keys(rec) + tail =~= tail);
    } else {
        assert(rec.push(f).drop_first() =~= rec.drop_first().push(f));
        lemma_insert_keys_push(rec.drop_first(), f);
        assert(spec_insert_keys(rec.push(f)) =~= spec_insert_keys(rec) + tail);
    }
}

proof fn lemma_insert_values_push(rec: Seq<(String, JsonValue)>, f: (String, JsonValue))
    ensures
        spec_insert_values(rec.push(f)) == spec_insert_values(rec) + (match f.1 {
            JsonValue::Composite => Seq::empty(),
            v => seq![spec_value_text(v)],
        }),
    decreases rec.len(),
{
    let tail: Seq<Seq<char>> = match f.1 {
        JsonValue::Composite => Seq::empty(),
        v => seq![spec_value_text(v)],
    };
    if rec.len() == 0 {
        assert(rec.push(f) =~= seq![f]);
        assert(seq![f].drop_first() =~= Seq::<(String, JsonValue)>::empty());
        assert(spec_insert_values(Seq::<(String, JsonValue)>::empty())
            =~= Seq::<Seq<char>>::empty());
        assert(spec_insert_values(seq![f]) =~= tail);
        assert(spec_insert_values(rec) + tail =~= tail);
    } else {
        assert(rec.push(f).drop_first() =~= rec.drop_first().push(f));
        lemma_insert_values_push(rec.drop_first(), f);
        assert(spec_insert_values(rec.push(f)) =~= spec_insert_values(rec) + tail);
    }
}

/// The full insert statement for a structured record.
pub open spec fn spec_insert_text(table: Seq<char>, rec: Seq<(String, JsonValue)>) -> Seq<char> {
    "INSERT INTO "@ + table + " ("@ + seq_join(spec_insert_keys(rec), ", "@) + ") VALUES ("@
        + seq_join(spec_insert_values(rec), ", "@) + ");"@
}

/// The degraded insert for a payload that is not structured: the raw bytes,
/// escaped, as one textual literal in a column named after the table, so
/// no message is ever dropped for not being well-formed structured data.
pub open spec fn spec_degraded_insert_text(table: Seq<char>, bs: Seq<u8>) -> Seq<char> {
    "INSERT INTO "@ + table + " ("@ + table + ") VALUES ('"@ + ascii_chars_of(
        spec_escape_bytes(bs),
    ) + "');"@
}

/// Builds the single insert statement that persists one record.
pub struct InsertRecord<'a> {
    /// The destination table.
    pub table_name: String,
    /// The record to persist.
    pub payload: &'a Payload,
}

impl<'a> InsertRecord<'a> {
    /// Creates a new [`InsertRecord`] builder.
    pub fn new(table_name: String, payload: &'a Payload) -> (r: InsertRecord<'a>)
        ensures
            r.table_name == table_name,
            r.payload == payload,
    {
        InsertRecord { table_name, payload }
    }
}

impl<'a> Query for InsertRecord<'a> {
    open spec fn spec_build(&self) -> Seq<Seq<char>> {
        match *self.payload {
            Payload::Structured(rec) => seq![spec_insert_text(self.table_name@, rec@)],
            Payload::Raw(bs) => seq![spec_degraded_insert_text(self.table_name@, bs@)],
        }
    }

    open spec fn spec_query_type(&self) -> QueryType {
        QueryType::InsertRecord
    }

    fn build(&self) -> (r: Result<Vec<ValidQuery>, Error>) {
        let text = match self.payload {
            Payload::Structured(rec) => {
                let mut keys: Vec<String> = Vec::new();
                let mut vals: Vec<String> = Vec::new();
                let mut i: usize = 0;
                proof {
                    assert(views_of(keys@) =~= spec_insert_keys(rec@.take(0)));
                    assert(views_of(vals@) =~= spec_insert_values(rec@.take(0)));
                }
                while i < rec.len()
                    invariant
                        i <= rec@.len(),
                        views_of(keys@) == spec_insert_keys(rec@.take(i as int)),
                        views_of(vals@) == spec_insert_values(rec@.take(i as int)),
                    decreases rec@.len() - i,
                {
                    let (name, value) = &rec[i];
                    match value {
                        JsonValue::Composite => {},
                        JsonValue::Null => {
                            keys.push(name.clone());
                            vals.push(String::from_str("'null'"));
                        },
                        JsonValue::Bool(b) => {
                            keys.push(name.clone());
                            vals.push(String::from_str(if *b {
                                "true"
                            } else {
                                "false"
                            }));
                        },
                        JsonValue::Number(s) => {
                            keys.push(name.clone());
                            vals.push(s.clone());
                        },
                        JsonValue::Text(s) => {
                            keys.push(name.clone());
                            let mut quoted = String::from_str("'");
                            let escaped = sql_escape(s.as_str());
                            quoted.append(escaped.as_str());
                            quoted.append("'");
                            vals.push(quoted);
                        },
                    }
                    proof {
                        lemma_insert_keys_push(rec@.take(i as int), rec@[i as int]);
                        lemma_insert_values_push(rec@.take(i as int), rec@[i as int]);
                        assert(rec@.take(i + 1) =~= rec@.take(i as int).push(rec@[i as int]));
                        assert(views_of(keys@) =~= spec_insert_keys(rec@.take(i + 1)));
                        assert(views_of(vals@) =~= spec_insert_values(rec@.take(i + 1)));
                    }
                    i = i + 1;
                }
                proof {
                    assert(rec@.take(rec@.len() as int) =~= rec@);
                }
                let mut out = String::from_str("INSERT INTO ");
                out.append(self.table_name.as_str());
                out.append(" (");
                let joined_keys = join_strings(&keys, ", ");
                out.append(joined_keys.as_str());
                out.append(") VALUES (");
                let joined_vals = join_strings(&vals, ", ");
                out.append(joined_vals.as_str());
                out.append(");");
                proof {
                    assert(out@ =~= spec_insert_text(self.table_name@, rec@));
                }
                out
            },
            Payload::Raw(bs) => {
                let mut out = String::from_str("INSERT INTO ");
                out.append(self.table_name.as_str());
                out.append(" (");
                out.append(self.table_name.as_str());
                out.append(") VALUES ('");
                let escaped = escape_bytes_string(bs.as_slice());
                out.append(escaped.as_str());
                out.append("');");
                proof {
                    assert(out@ =~= spec_degraded_insert_text(self.table_name@, bs@));
                }
                out
            },
        };
        let mut queries: Vec<ValidQuery> = Vec::new();
        queries.push(ValidQuery::new(text, QueryType::InsertRecord));
        Ok(queries)
    }

    fn get_type(&self) -> (r: QueryType) {
        QueryType::InsertRecord
    }
}

} // verus!
