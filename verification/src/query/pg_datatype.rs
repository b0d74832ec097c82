//! The semantic column types and the type mapper that derives one from a
//! structured value.

use vstd::prelude::*;

use crate::record::JsonValue;

verus! {

/// The semantic column type a structured field maps to in the store.
///
/// `Null` and `Text` render identically (both become a textual column) but
/// are tracked separately in memory for schema-diff purposes.
#[derive(Debug, Clone, Copy, PartialEq, Eq, Structural, Hash)]
pub enum PGDatatype {
    Numeric,
    Boolean,
    Text,
    Null,
    TimestampWithTimezone,
}

impl PGDatatype {
    /// The textual form the store's schema language uses for this type.
    pub open spec fn spec_render(self) -> Seq<char> {
        match self {
            PGDatatype::Numeric => "numeric"@,
            PGDatatype::Boolean => "boolean"@,
            PGDatatype::Text => "text"@,
            PGDatatype::Null => "text"@,
            PGDatatype::TimestampWithTimezone => "timestamp with time zone"@,
        }
    }

    /// Renders this column type as it appears in schema statements.
    pub fn render(&self) -> (r: &'static str)
        ensures
            r@ == self.spec_render(),
    {
        match self {
            PGDatatype::Numeric => "numeric",
            PGDatatype::Boolean => "boolean",
            PGDatatype::Text => "text",
            PGDatatype::Null => "text",
            PGDatatype::TimestampWithTimezone => "timestamp with time zone",
        }
    }

    /// The type a structured value derives, or `None` for a composite
    /// value, which no column can hold.
    pub open spec fn spec_of_value(v: JsonValue) -> Option<PGDatatype> {
        match v {
            JsonValue::Number(_) => Some(PGDatatype::Numeric),
            JsonValue::Bool(_) => Some(PGDatatype::Boolean),
            JsonValue::Text(_) => Some(PGDatatype::Text),
            JsonValue::Null => Some(PGDatatype::Null),
            JsonValue::Composite => None,
        }
    }

    /// The type mapper: total over the four scalar shapes, and `None` for
    /// an unsupported composite value. Deterministic, with no side effects.
    pub fn of_value(v: &JsonValue) -> (r: Option<PGDatatype>)
        ensures
            r == Self::spec_of_value(*v),
    {
        match v {
            JsonValue::Number(_) => Some(PGDatatype::Numeric),
            JsonValue::Bool(_) => Some(PGDatatype::Boolean),
            JsonValue::Text(_) => Some(PGDatatype::Text),
            JsonValue::Null => Some(PGDatatype::Null),
            JsonValue::Composite => None,
        }
    }

    /// The type a catalog row's type text names, or `None` for text the
    /// mirror does not track.
    pub open spec fn spec_from_catalog_name(s: Seq<char>) -> Option<PGDatatype> {
        if s == "boolean"@ {
            Some(PGDatatype::Boolean)
        } else if s == "numeric"@ {
            Some(PGDatatype::Numeric)
        } else if s == "text"@ {
            Some(PGDatatype::Text)
        } else if s == "timestamp with time zone"@ {
            Some(PGDatatype::TimestampWithTimezone)
        } else {
            None
        }
    }

    /// Maps the type text of a catalog row back to the column type it names.
    /// A column read back as textual is tracked as `Text`, never as `Null`.
    pub fn from_catalog_name(name: &String) -> (r: Option<PGDatatype>)
        ensures
            r == Self::spec_from_catalog_name(name@),
    {
        let boolean_name = String::from_str("boolean");
        let numeric_name = String::from_str("numeric");
        let text_name = String::from_str("text");
        let timestamp_name = String::from_str("timestamp with time zone");
        if *name == boolean_name {
            Some(PGDatatype::Boolean)
        } else if *name == numeric_name {
            Some(PGDatatype::Numeric)
        } else if *name == text_name {
            Some(PGDatatype::Text)
        } else if *name == timestamp_name {
            Some(PGDatatype::TimestampWithTimezone)
        } else {
            None
        }
    }
}

} // verus!
