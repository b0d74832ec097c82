//! Statements and their builders.
//!
//! A built statement is an opaque, already-rendered unit of the store's
//! query language, tagged as schema definition or data manipulation and
//! immutable once built.

pub mod create_table;
pub mod insert_record;
pub mod pg_datatype;

use vstd::prelude::*;

use crate::error::Error;

verus! {

/// Which kind of statement a builder produces.
#[derive(Debug, Clone, Copy, PartialEq, Eq, Structural)]
pub enum QueryType {
    /// A schema-definition statement.
    CreateTable,
    /// A data-manipulation statement.
    InsertRecord,
}

/// A rendered statement together with its kind.
#[derive(Debug)]
pub struct ValidQuery {
    text: String,
    kind: QueryType,
}

impl ValidQuery {
    /// The characters of the rendered statement.
    pub closed spec fn spec_text(&self) -> Seq<char> {
        self.text@
    }

    /// The kind this statement was tagged with.
    pub closed spec fn spec_kind(&self) -> QueryType {
        self.kind
    }

    /// Wraps a rendered statement.
    pub fn new(text: String, kind: QueryType) -> (r: ValidQuery)
        ensures
            r.spec_text() == text@,
            r.spec_kind() == kind,
    {
        ValidQuery { text, kind }
    }

    /// Hands out the rendered statement.
    pub fn get(self) -> (r: String)
        ensures
            r@ == self.spec_text(),
    {
        self.text
    }

    /// The kind this statement was tagged with.
    pub fn kind(&self) -> (r: QueryType)
        ensures
            r == self.spec_kind(),
    {
        self.kind
    }
}

/// A statement builder: it renders zero or more statements from the state
/// it was created with, and names the kind it is tagged with.
pub trait Query {
    /// The statement texts this builder renders.
    spec fn spec_build(&self) -> Seq<Seq<char>>;

    /// The kind of the statements this builder renders.
    spec fn spec_query_type(&self) -> QueryType;

    /// Renders the builder's statements. Building never fails once a
    /// payload has been classified; the result shape stands for callers
    /// that treat building as fallible.
    fn build(&self) -> (r: Result<Vec<ValidQuery>, Error>)
        ensures
            r matches Ok(v),
            r matches Ok(v) ==> v@.len() == self.spec_build().len() && (forall|i: int|
                0 <= i < v@.len() ==> v@[i].spec_text() == self.spec_build()[i]
                    && v@[i].spec_kind() == self.spec_query_type()),
    ;

    /// Names the builder's kind.
    fn get_type(&self) -> (r: QueryType)
        ensures
            r == self.spec_query_type(),
    ;
}

} // verus!
