//! Schema-inferring ingestion core: derives relational column types from
//! structured records, mirrors each destination table's column set in a
//! process-local cache, and renders the DDL and DML statements that keep the
//! store in step with the records it receives.

pub mod config;
pub mod error;
pub mod helpers;
pub mod ingest;
pub mod query;
pub mod record;
pub mod schema;
pub mod text;
pub mod topic;

pub use config::Config;
pub use error::Error;
pub use helpers::IsJson;
pub use query::create_table::CreateTable;
pub use query::insert_record::InsertRecord;
pub use query::pg_datatype::PGDatatype;
pub use query::{Query, QueryType, ValidQuery};
