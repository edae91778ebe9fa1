//! A log-shipping pipeline: structured events are normalized into flat JSON
//! records, handed off through a bounded channel without blocking the caller,
//! batched by a background worker, and delivered to an HTTP ingestion
//! endpoint with bearer authentication.

mod delivery;
mod fields;
mod json;
mod layer;
mod record;
mod time;
mod worker;

pub use delivery::{bearer_header, delivery_report, status_is_success};
pub use fields::{Entries, FieldMap, FieldValue, ValueView};
pub use fields::{contains_key, get_value, insert_entry, key_index, merge_entries, remove_key};
pub use fields::{
    lemma_insert_wf, lemma_key_index, lemma_key_index_is_first, lemma_merge_wf,
    lemma_remove_key_absent, lemma_remove_wf, wf_entries,
};
pub use json::{dec_int, dec_nat, entries_json, entry_json, escape_char, escape_seq};
pub use json::{json_of_value, json_string, object_json};
pub use json::{push_dec_i64, push_dec_u64, push_json_string, push_object, push_value};
pub use layer::{builder_from_env, default_endpoint, default_endpoint_spec, enqueue_record};
pub use layer::{BetterStackLayerBuilder, DEFAULT_BATCH_SIZE, DEFAULT_CHANNEL_CAPACITY};
pub use layer::DEFAULT_FLUSH_INTERVAL_MILLIS;
pub use record::{batch_json, batch_to_json, record_json, record_json_after_dt, record_to_json};
pub use record::{records_json, views_of};
pub use record::{lemma_message_extracted, lemma_normalize_deterministic};
pub use record::{normalize_event, span_arg, span_entries, spec_normalize};
pub use record::{LogRecord, RecordView, SpanState};
pub use time::{chrono_now_iso, civil_from_days, days_to_ymd, format_timestamp};
pub use time::{pad2, pad3, pad4, timestamp_str};
pub use worker::{ceil_div, run_drain, run_feed, spec_drain_step, spec_feed, spec_step};
pub use worker::{lemma_below_threshold_no_delivery, lemma_delivery_count, lemma_drain_delivery, lemma_run_feed};
pub use worker::{ShipperWorker, WorkerEvent, WorkerModel, WorkerState};
