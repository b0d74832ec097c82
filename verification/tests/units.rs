//! Unit tests for the type mapper, the schema mirror, the builders, the
//! text utilities and the configuration defaults.

use mqtt_ingest::config::{KeepAliveSeconds, MaxPacketSize, MqttConfig, PostgresConfig, TopicsConfig};
use mqtt_ingest::query::create_table::alter_statements;
use mqtt_ingest::record::{parse_payload, JsonValue, Payload};
use mqtt_ingest::schema::{catalog_columns, derive_columns, schema_difference, SchemaCache, TableSchema};
use mqtt_ingest::text::{escape_bytes_string, join_strings, sql_escape};
use mqtt_ingest::{CreateTable, Error, InsertRecord, IsJson, PGDatatype, Query, QueryType, ValidQuery};

#[test]
fn type_mapper_is_total_over_scalars() {
    assert_eq!(
        PGDatatype::of_value(&JsonValue::Number("1.5".to_string())),
        Some(PGDatatype::Numeric)
    );
    assert_eq!(
        PGDatatype::of_value(&JsonValue::Bool(true)),
        Some(PGDatatype::Boolean)
    );
    assert_eq!(
        PGDatatype::of_value(&JsonValue::Text("x".to_string())),
        Some(PGDatatype::Text)
    );
    assert_eq!(PGDatatype::of_value(&JsonValue::Null), Some(PGDatatype::Null));
    assert_eq!(PGDatatype::of_value(&JsonValue::Composite), None);
}

#[test]
fn composite_values_come_back_unsupported_from_parsing() {
    let payload = br#"{"obj": {"x": 1}, "arr": [1, 2], "n": 7}"#.to_vec();
    let rec = match parse_payload(payload) {
        Ok(Payload::Structured(rec)) => rec,
        _ => panic!("expected a structured record"),
    };
    let kinds: Vec<Option<PGDatatype>> =
        rec.iter().map(|(_, v)| PGDatatype::of_value(v)).collect();
    // Keys come back in sorted order: arr, n, obj.
    assert_eq!(kinds, vec![None, Some(PGDatatype::Numeric), None]);
}

#[test]
fn column_types_render_as_store_names() {
    assert_eq!(PGDatatype::Numeric.render(), "numeric");
    assert_eq!(PGDatatype::Boolean.render(), "boolean");
    assert_eq!(PGDatatype::Text.render(), "text");
    assert_eq!(PGDatatype::Null.render(), "text");
    assert_eq!(
        PGDatatype::TimestampWithTimezone.render(),
        "timestamp with time zone"
    );
}

#[test]
fn catalog_type_names_map_back() {
    assert_eq!(
        PGDatatype::from_catalog_name(&"boolean".to_string()),
        Some(PGDatatype::Boolean)
    );
    assert_eq!(
        PGDatatype::from_catalog_name(&"numeric".to_string()),
        Some(PGDatatype::Numeric)
    );
    assert_eq!(
        PGDatatype::from_catalog_name(&"text".to_string()),
        Some(PGDatatype::Text)
    );
    assert_eq!(
        PGDatatype::from_catalog_name(&"timestamp with time zone".to_string()),
        Some(PGDatatype::TimestampWithTimezone)
    );
    assert_eq!(PGDatatype::from_catalog_name(&"integer".to_string()), None);
}

#[test]
fn is_json_checks_braces() {
    assert!(b"{}".to_vec().is_json());
    assert!(br#"{"a": 1}"#.to_vec().is_json());
    assert!(!b"raw".to_vec().is_json());
    assert!(!b"".to_vec().is_json());
    assert!(!b"{unclosed".to_vec().is_json());
}

#[test]
fn invalid_json_is_a_parse_error() {
    let r = parse_payload(b"{not json}".to_vec());
    match r {
        Err(Error::JSONError { .. }) => {}
        _ => panic!("a brace-delimited but malformed payload must be a parse error"),
    }
}

#[test]
fn parse_error_message_has_its_prefix() {
    let e = match parse_payload(b"{not json}".to_vec()) {
        Err(e) => e,
        _ => panic!("expected an error"),
    };
    assert!(e.message().starts_with("json error: "));
}

#[test]
fn connection_error_message_has_its_prefix() {
    let e = Error::ConnectionError {
        error: "broken pipe".to_string(),
    };
    assert_eq!(e.message(), "connection error: broken pipe");
}

#[test]
fn schema_difference_is_empty_after_round_trip() {
    let rows = vec![
        ("a".to_string(), "numeric".to_string()),
        ("b".to_string(), "text".to_string()),
    ];
    let cols = catalog_columns(&rows).expect("both types are tracked");
    let schema = TableSchema::from_columns(&cols);
    let rec = vec![
        ("a".to_string(), JsonValue::Number("1".to_string())),
        ("b".to_string(), JsonValue::Text("x".to_string())),
    ];
    let derived = derive_columns(&rec);
    let diff = schema_difference(&derived, &schema);
    assert!(diff.is_empty());
}

#[test]
fn schema_difference_orders_and_deduplicates() {
    let schema = TableSchema::from_columns(&vec![("a".to_string(), PGDatatype::Numeric)]);
    let derived = vec![
        ("b".to_string(), PGDatatype::Text),
        ("a".to_string(), PGDatatype::Numeric),
        ("c".to_string(), PGDatatype::Boolean),
        ("b".to_string(), PGDatatype::Text),
    ];
    let diff = schema_difference(&derived, &schema);
    assert_eq!(
        diff,
        vec![
            ("b".to_string(), PGDatatype::Text),
            ("c".to_string(), PGDatatype::Boolean)
        ]
    );
}

#[test]
fn extending_twice_yields_no_new_statements() {
    let mut cache = SchemaCache::new();
    let table = "t".to_string();
    cache.prime(
        table.clone(),
        TableSchema::from_columns(&vec![("temp".to_string(), PGDatatype::Numeric)]),
    );
    let rec = vec![
        ("humidity".to_string(), JsonValue::Number("55".to_string())),
        ("temp".to_string(), JsonValue::Number("22.0".to_string())),
    ];
    let derived = derive_columns(&rec);
    let diff = {
        let s = cache.lookup(&table).unwrap();
        schema_difference(&derived, s)
    };
    assert_eq!(diff.len(), 1);
    cache.extend(&table, &diff);
    let diff2 = {
        let s = cache.lookup(&table).unwrap();
        schema_difference(&derived, s)
    };
    assert!(diff2.is_empty());
}

#[test]
fn ratchet_keeps_columns_records_omit() {
    let mut cache = SchemaCache::new();
    let table = "t".to_string();
    cache.prime(
        table.clone(),
        TableSchema::from_columns(&vec![("temp".to_string(), PGDatatype::Numeric)]),
    );
    // A record without `temp` adds its own column and removes nothing.
    let rec = vec![("other".to_string(), JsonValue::Number("1".to_string()))];
    let derived = derive_columns(&rec);
    let diff = {
        let s = cache.lookup(&table).unwrap();
        schema_difference(&derived, s)
    };
    cache.extend(&table, &diff);
    let s = cache.lookup(&table).unwrap();
    assert!(s.contains(&"temp".to_string(), PGDatatype::Numeric));
    assert!(s.contains(&"other".to_string(), PGDatatype::Numeric));
}

#[test]
fn create_builder_renders_all_derived_columns() {
    let payload = parse_payload(br#"{"on": true, "note": null, "temp": 1.5}"#.to_vec())
        .expect("parses");
    let builder = CreateTable::new("t".to_string(), &payload, false);
    assert_eq!(builder.get_type(), QueryType::CreateTable);
    let stmts = builder.build().expect("builds");
    let texts: Vec<String> = stmts.into_iter().map(ValidQuery::get).collect();
    assert_eq!(
        texts,
        vec![
            "CREATE TABLE IF NOT EXISTS t (time TIMESTAMPTZ NOT NULL DEFAULT now(), note text, \
             on boolean, temp numeric);"
                .to_string()
        ]
    );
}

#[test]
fn create_builder_handles_a_record_with_no_columns() {
    // An empty document, and one whose every field is composite, both
    // derive no columns: the created table has only the timestamp column.
    let payload = parse_payload(b"{}".to_vec()).expect("parses");
    let builder = CreateTable::new("t".to_string(), &payload, false);
    let stmts = builder.build().expect("builds");
    let texts: Vec<String> = stmts.into_iter().map(ValidQuery::get).collect();
    assert_eq!(
        texts,
        vec!["CREATE TABLE IF NOT EXISTS t (time TIMESTAMPTZ NOT NULL DEFAULT now());".to_string()]
    );

    let payload = parse_payload(br#"{"a": [1]}"#.to_vec()).expect("parses");
    let builder = CreateTable::new("t".to_string(), &payload, false);
    let stmts = builder.build().expect("builds");
    let texts: Vec<String> = stmts.into_iter().map(ValidQuery::get).collect();
    assert_eq!(
        texts,
        vec!["CREATE TABLE IF NOT EXISTS t (time TIMESTAMPTZ NOT NULL DEFAULT now());".to_string()]
    );
}

#[test]
fn insert_builder_quotes_text_and_null_only() {
    let payload = parse_payload(br#"{"on": true, "note": null, "temp": 1.5, "unit": "C"}"#.to_vec())
        .expect("parses");
    let builder = InsertRecord::new("t".to_string(), &payload);
    assert_eq!(builder.get_type(), QueryType::InsertRecord);
    let stmts = builder.build().expect("builds");
    let texts: Vec<String> = stmts.into_iter().map(ValidQuery::get).collect();
    assert_eq!(
        texts,
        vec![
            "INSERT INTO t (note, on, temp, unit) VALUES ('null', true, 1.5, 'C');".to_string()
        ]
    );
}

#[test]
fn insert_builder_doubles_quotes_inside_text() {
    let payload = parse_payload(br#"{"s": "it's"}"#.to_vec()).expect("parses");
    let builder = InsertRecord::new("t".to_string(), &payload);
    let stmts = builder.build().expect("builds");
    let texts: Vec<String> = stmts.into_iter().map(ValidQuery::get).collect();
    assert_eq!(
        texts,
        vec!["INSERT INTO t (s) VALUES ('it''s');".to_string()]
    );
}

#[test]
fn alter_statements_render_one_per_column() {
    let cols = vec![
        ("a".to_string(), PGDatatype::Numeric),
        ("b".to_string(), PGDatatype::Boolean),
    ];
    let stmts = alter_statements(&"t".to_string(), &cols);
    let texts: Vec<String> = stmts.into_iter().map(ValidQuery::get).collect();
    assert_eq!(
        texts,
        vec![
            "ALTER TABLE t ADD COLUMN a numeric;".to_string(),
            "ALTER TABLE t ADD COLUMN b boolean;".to_string(),
        ]
    );
}

#[test]
fn escaping_covers_quotes_controls_and_high_bytes() {
    let bytes = vec![b'a', b'\'', b'"', b'\\', b'\n', b'\t', b'\r', 0x00, 0xff, b'~'];
    assert_eq!(
        escape_bytes_string(&bytes),
        "a\\'\\\"\\\\\\n\\t\\r\\x00\\xff~"
    );
}

#[test]
fn join_strings_separates_only_between() {
    let parts = vec!["a".to_string(), "b".to_string(), "c".to_string()];
    assert_eq!(join_strings(&parts, ", "), "a, b, c");
    let one = vec!["a".to_string()];
    assert_eq!(join_strings(&one, ", "), "a");
    let none: Vec<String> = vec![];
    assert_eq!(join_strings(&none, ", "), "");
}

#[test]
fn sql_escape_doubles_quotes() {
    assert_eq!(sql_escape("it's"), "it''s");
    assert_eq!(sql_escape("plain"), "plain");
    assert_eq!(sql_escape("''"), "''''");
}

#[test]
fn configuration_defaults_match_the_documented_values() {
    assert_eq!(KeepAliveSeconds::default().0, 5);
    assert_eq!(MaxPacketSize::default().0, 100000);
    assert_eq!(u64::from(KeepAliveSeconds(7)), 7);
    assert_eq!(u32::from(MaxPacketSize(9)), 9);
    let pg = PostgresConfig::default();
    assert!(!pg.timescale);
    assert_eq!(pg.connection_string, "");
    let mqtt = MqttConfig::default();
    assert_eq!(mqtt.keep_alive_seconds.0, 5);
    assert_eq!(mqtt.max_packet_size.0, 100000);
    let topics = TopicsConfig::default();
    assert!(topics.subscribe.is_empty());
    assert!(topics.ignore.is_empty());
}
