//! End-to-end walks of the ingestion step machine, driving it exactly as
//! the consumer loop would and checking every rendered statement.

use mqtt_ingest::ingest::{
    ingest_step, prepare_event, JobState, RecordJob, StoreAction, StoreEvent,
};
use mqtt_ingest::schema::SchemaCache;
use mqtt_ingest::QueryType;

fn make_job(topic: &str, payload: &[u8], timescale: bool) -> RecordJob {
    let topic_bytes = topic.as_bytes().to_vec();
    prepare_event(&topic_bytes, payload.to_vec(), false, false, timescale)
        .expect("payload should parse")
        .expect("event should pass the filter")
}

fn step(
    job: &RecordJob,
    state: JobState,
    event: StoreEvent,
    cache: &mut SchemaCache,
) -> (JobState, StoreAction) {
    ingest_step(job, state, event, cache).expect("step should succeed")
}

fn texts_of(action: StoreAction, expected_kind: QueryType) -> Vec<String> {
    match action {
        StoreAction::Transaction(stmts) => stmts
            .into_iter()
            .map(|q| {
                assert_eq!(q.kind(), expected_kind);
                q.get()
            })
            .collect(),
        _ => panic!("expected a transaction"),
    }
}

fn read_of(action: StoreAction) -> String {
    match action {
        StoreAction::Read(q) => q,
        _ => panic!("expected a read"),
    }
}

#[test]
fn first_record_creates_table_then_inserts() {
    let job = make_job(
        "sensor/livingroom/data",
        br#"{"temp": 21.5, "unit": "C"}"#,
        false,
    );
    let mut cache = SchemaCache::new();

    let (state, action) = step(&job, JobState::Start, StoreEvent::Started, &mut cache);
    assert!(matches!(state, JobState::AwaitCatalog));
    assert_eq!(
        read_of(action),
        "SELECT column_name, data_type FROM information_schema.columns where table_name = \
         'sensor_livingroom_data' AND column_name != 'time';"
    );

    let (state, action) = step(&job, state, StoreEvent::CatalogRows(vec![]), &mut cache);
    assert!(matches!(state, JobState::AwaitCreate(_)));
    assert_eq!(
        texts_of(action, QueryType::CreateTable),
        vec![
            "CREATE TABLE IF NOT EXISTS sensor_livingroom_data (time TIMESTAMPTZ NOT NULL \
             DEFAULT now(), temp numeric, unit text);"
                .to_string()
        ]
    );

    let (state, action) = step(&job, state, StoreEvent::Committed, &mut cache);
    assert!(matches!(state, JobState::AwaitInsert));
    assert_eq!(
        texts_of(action, QueryType::InsertRecord),
        vec!["INSERT INTO sensor_livingroom_data (temp, unit) VALUES (21.5, 'C');".to_string()]
    );

    let (state, action) = step(&job, state, StoreEvent::Committed, &mut cache);
    assert!(matches!(state, JobState::Finished));
    assert!(matches!(action, StoreAction::Finish));

    let table = "sensor_livingroom_data".to_string();
    assert!(cache.contains_table(&table));
}

#[test]
fn second_record_alters_for_new_column_only() {
    let first = make_job(
        "sensor/livingroom/data",
        br#"{"temp": 21.5, "unit": "C"}"#,
        false,
    );
    let mut cache = SchemaCache::new();
    let (state, _) = step(&first, JobState::Start, StoreEvent::Started, &mut cache);
    let (state, _) = step(&first, state, StoreEvent::CatalogRows(vec![]), &mut cache);
    let (state, _) = step(&first, state, StoreEvent::Committed, &mut cache);
    let (_, _) = step(&first, state, StoreEvent::Committed, &mut cache);

    let second = make_job(
        "sensor/livingroom/data",
        br#"{"temp": 22.0, "humidity": 55}"#,
        false,
    );
    let (state, action) = step(&second, JobState::Start, StoreEvent::Started, &mut cache);
    assert!(matches!(state, JobState::AwaitAlter(_)));
    assert_eq!(
        texts_of(action, QueryType::CreateTable),
        vec!["ALTER TABLE sensor_livingroom_data ADD COLUMN humidity numeric;".to_string()]
    );

    let (state, action) = step(&second, state, StoreEvent::Committed, &mut cache);
    assert!(matches!(state, JobState::AwaitInsert));
    assert_eq!(
        texts_of(action, QueryType::InsertRecord),
        vec!["INSERT INTO sensor_livingroom_data (humidity, temp) VALUES (55, 22.0);".to_string()]
    );
}

#[test]
fn repeated_record_needs_no_schema_statements() {
    let job = make_job(
        "sensor/livingroom/data",
        br#"{"temp": 21.5, "unit": "C"}"#,
        false,
    );
    let mut cache = SchemaCache::new();
    let (state, _) = step(&job, JobState::Start, StoreEvent::Started, &mut cache);
    let (state, _) = step(&job, state, StoreEvent::CatalogRows(vec![]), &mut cache);
    let (state, _) = step(&job, state, StoreEvent::Committed, &mut cache);
    let (_, _) = step(&job, state, StoreEvent::Committed, &mut cache);

    // The same record again: the mirror already reflects its columns, so
    // the first step goes straight to the insert.
    let again = make_job(
        "sensor/livingroom/data",
        br#"{"temp": 21.5, "unit": "C"}"#,
        false,
    );
    let (state, action) = step(&again, JobState::Start, StoreEvent::Started, &mut cache);
    assert!(matches!(state, JobState::AwaitInsert));
    let texts = texts_of(action, QueryType::InsertRecord);
    assert_eq!(texts.len(), 1);
    assert!(texts[0].starts_with("INSERT INTO "));
}

#[test]
fn catalog_primed_table_round_trips_without_statements() {
    let job = make_job("sensor/livingroom/data", br#"{"a": 1.5, "b": "x"}"#, false);
    let mut cache = SchemaCache::new();
    let (state, _) = step(&job, JobState::Start, StoreEvent::Started, &mut cache);
    let rows = vec![
        ("a".to_string(), "numeric".to_string()),
        ("b".to_string(), "text".to_string()),
    ];
    // The store already has exactly these columns: the difference is empty
    // and the step goes straight to the insert, no ALTER in between.
    let (state, action) = step(&job, state, StoreEvent::CatalogRows(rows), &mut cache);
    assert!(matches!(state, JobState::AwaitInsert));
    assert_eq!(
        texts_of(action, QueryType::InsertRecord),
        vec!["INSERT INTO sensor_livingroom_data (a, b) VALUES (1.5, 'x');".to_string()]
    );
}

#[test]
fn unstructured_payload_takes_degraded_path() {
    let job = make_job("devices/raw", b"raw-bytes", false);
    let mut cache = SchemaCache::new();
    let (state, _) = step(&job, JobState::Start, StoreEvent::Started, &mut cache);
    let (state, action) = step(&job, state, StoreEvent::CatalogRows(vec![]), &mut cache);
    assert_eq!(
        texts_of(action, QueryType::CreateTable),
        vec![
            "CREATE TABLE IF NOT EXISTS devices_raw (time TIMESTAMPTZ NOT NULL DEFAULT now(), \
             devices_raw text);"
                .to_string()
        ]
    );
    let (_, action) = step(&job, state, StoreEvent::Committed, &mut cache);
    assert_eq!(
        texts_of(action, QueryType::InsertRecord),
        vec!["INSERT INTO devices_raw (devices_raw) VALUES ('raw-bytes');".to_string()]
    );
}

#[test]
fn reserved_destination_is_filtered_out() {
    let topic = b"homeassistant/bridge/state".to_vec();
    let r = prepare_event(&topic, b"{}".to_vec(), false, false, false);
    assert!(matches!(r, Ok(None)));

    let topic = b"zigbee2mqtt/bridge/state".to_vec();
    let r = prepare_event(&topic, b"{}".to_vec(), false, false, false);
    assert!(matches!(r, Ok(None)));

    let topic = b"single".to_vec();
    let r = prepare_event(&topic, b"{}".to_vec(), false, false, false);
    assert!(matches!(r, Ok(None)));
}

#[test]
fn duplicate_and_retained_events_are_skipped() {
    let topic = b"sensor/livingroom/data".to_vec();
    let r = prepare_event(&topic, b"{}".to_vec(), true, false, false);
    assert!(matches!(r, Ok(None)));
    let r = prepare_event(&topic, b"{}".to_vec(), false, true, false);
    assert!(matches!(r, Ok(None)));
    let r = prepare_event(&topic, b"{}".to_vec(), false, false, false);
    assert!(matches!(r, Ok(Some(_))));
}

#[test]
fn timescale_checks_then_converts_new_table() {
    let job = make_job("sensor/garden/data", br#"{"soil": 3.5}"#, true);
    let mut cache = SchemaCache::new();
    let (state, _) = step(&job, JobState::Start, StoreEvent::Started, &mut cache);
    let (state, action) = step(&job, state, StoreEvent::CatalogRows(vec![]), &mut cache);
    assert!(matches!(state, JobState::AwaitHypertableCheck));
    assert_eq!(
        read_of(action),
        "SELECT * FROM timescaledb_information.hypertables WHERE hypertable_name = \
         'sensor_garden_data';"
    );
    let (state, action) = step(&job, state, StoreEvent::HypertableExists(false), &mut cache);
    assert!(matches!(state, JobState::AwaitCreate(_)));
    assert_eq!(
        texts_of(action, QueryType::CreateTable),
        vec![
            "CREATE TABLE IF NOT EXISTS sensor_garden_data (time TIMESTAMPTZ NOT NULL DEFAULT \
             now(), soil numeric);"
                .to_string(),
            "SELECT create_hypertable('sensor_garden_data', by_range('time'), migrate_data => \
             true);"
                .to_string(),
        ]
    );
}

#[test]
fn timescale_skips_conversion_when_already_partitioned() {
    let job = make_job("sensor/garden/data", br#"{"soil": 3.5}"#, true);
    let mut cache = SchemaCache::new();
    let (state, _) = step(&job, JobState::Start, StoreEvent::Started, &mut cache);
    let (state, _) = step(&job, state, StoreEvent::CatalogRows(vec![]), &mut cache);
    let (_, action) = step(&job, state, StoreEvent::HypertableExists(true), &mut cache);
    let texts = texts_of(action, QueryType::CreateTable);
    assert_eq!(texts.len(), 1);
    assert!(texts[0].starts_with("CREATE TABLE IF NOT EXISTS sensor_garden_data "));
}

#[test]
fn slugging_normalizes_topic_segments() {
    // Upper case and punctuation disappear in the table name: the slug of a
    // segment is not the segment itself.
    let job = make_job("Sensor Room/Data#1", br#"{"v": 1}"#, false);
    assert_eq!(job.table, "sensor_room".to_string() + "_data_1");
}

#[test]
fn unknown_catalog_type_is_an_error() {
    let job = make_job("sensor/livingroom/data", br#"{"a": 1}"#, false);
    let mut cache = SchemaCache::new();
    let (state, _) = step(&job, JobState::Start, StoreEvent::Started, &mut cache);
    let rows = vec![("a".to_string(), "integer".to_string())];
    let r = ingest_step(&job, state, StoreEvent::CatalogRows(rows), &mut cache);
    match r {
        Err(e) => assert_eq!(e.message(), "query is invalid: integer"),
        Ok(_) => panic!("a catalog row with an untracked type must fail"),
    }
}
