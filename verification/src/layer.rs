//! Construction of the shipping layer: the builder with its defaults, the
//! environment-driven configuration decision, and the non-blocking handoff
//! of records into the ingress channel.

use vstd::prelude::*;
use vstd::string::StringExecFns;

use crate::record::LogRecord;

verus! {

/// Default channel capacity of the ingress channel.
pub const DEFAULT_CHANNEL_CAPACITY: usize = 8192;

/// Default number of records per delivered batch.
pub const DEFAULT_BATCH_SIZE: usize = 100;

/// Default flush interval, in milliseconds.
pub const DEFAULT_FLUSH_INTERVAL_MILLIS: u64 = 1000;

/// The default ingestion endpoint.
pub open spec fn default_endpoint_spec() -> Seq<char> {
    "https://in.logs.betterstack.com"@
}

/// The default ingestion endpoint.
pub fn default_endpoint() -> (r: String)
    ensures
        r@ == default_endpoint_spec(),
{
    "https://in.logs.betterstack.com".to_owned()
}

/// Builder for the shipping layer's configuration: set once at
/// construction, immutable afterwards.
pub struct BetterStackLayerBuilder {
    pub source_token: String,
    pub endpoint: String,
    pub channel_capacity: usize,
    pub batch_size: usize,
    pub flush_interval_millis: u64,
}

impl BetterStackLayerBuilder {
    /// A builder with the given source token and every other option at its
    /// default.
    pub fn new(source_token: String) -> (b: Self)
        ensures
            b.source_token@ == source_token@,
            b.endpoint@ == default_endpoint_spec(),
            b.channel_capacity == DEFAULT_CHANNEL_CAPACITY,
            b.batch_size == DEFAULT_BATCH_SIZE,
            b.flush_interval_millis == DEFAULT_FLUSH_INTERVAL_MILLIS,
    {
        BetterStackLayerBuilder {
            source_token,
            endpoint: default_endpoint(),
            channel_capacity: DEFAULT_CHANNEL_CAPACITY,
            batch_size: DEFAULT_BATCH_SIZE,
            flush_interval_millis: DEFAULT_FLUSH_INTERVAL_MILLIS,
        }
    }

    /// Override the ingestion endpoint.
    pub fn endpoint(self, url: String) -> (b: Self)
        ensures
            b.endpoint@ == url@,
            b.source_token@ == self.source_token@,
            b.channel_capacity == self.channel_capacity,
            b.batch_size == self.batch_size,
            b.flush_interval_millis == self.flush_interval_millis,
    {
        BetterStackLayerBuilder { endpoint: url, ..self }
    }

    /// Set the bounded channel capacity.
    pub fn channel_capacity(self, cap: usize) -> (b: Self)
        ensures
            b.channel_capacity == cap,
            b.source_token@ == self.source_token@,
            b.endpoint@ == self.endpoint@,
            b.batch_size == self.batch_size,
            b.flush_interval_millis == self.flush_interval_millis,
    {
        BetterStackLayerBuilder { channel_capacity: cap, ..self }
    }

    /// Set the number of records per delivered batch.
    pub fn batch_size(self, size: usize) -> (b: Self)
        ensures
            b.batch_size == size,
            b.source_token@ == self.source_token@,
            b.endpoint@ == self.endpoint@,
            b.channel_capacity == self.channel_capacity,
            b.flush_interval_millis == self.flush_interval_millis,
    {
        BetterStackLayerBuilder { batch_size: size, ..self }
    }

    /// Set the longest time between flushes, in milliseconds.
    pub fn flush_interval(self, millis: u64) -> (b: Self)
        ensures
            b.flush_interval_millis == millis,
            b.source_token@ == self.source_token@,
            b.endpoint@ == self.endpoint@,
            b.channel_capacity == self.channel_capacity,
            b.batch_size == self.batch_size,
    {
        BetterStackLayerBuilder { flush_interval_millis: millis, ..self }
    }
}

/// Decide the configuration from environment-supplied values: no builder
/// at all when the token variable was unset or empty, otherwise a builder
/// with that token, taking a non-empty endpoint override when one was set.
pub fn builder_from_env(token: Option<String>, endpoint_override: Option<String>) -> (r: Option<
    BetterStackLayerBuilder,
>)
    ensures
        r is None <==> (token is None || (token matches Some(t) && t@.len() == 0)),
        r matches Some(b) ==> {
            &&& token matches Some(t) && b.source_token@ == t@
            &&& b.endpoint@ == (match endpoint_override {
                Some(e) => if e@.len() > 0 {
                    e@
                } else {
                    default_endpoint_spec()
                },
                None => default_endpoint_spec(),
            })
            &&& b.channel_capacity == DEFAULT_CHANNEL_CAPACITY
            &&& b.batch_size == DEFAULT_BATCH_SIZE
            &&& b.flush_interval_millis == DEFAULT_FLUSH_INTERVAL_MILLIS
        },
{
    match token {
        None => None,
        Some(t) => {
            if t.as_str().unicode_len() == 0 {
                None
            } else {
                let builder = BetterStackLayerBuilder::new(t);
                let builder = match endpoint_override {
                    Some(e) => {
                        if e.as_str().unicode_len() > 0 {
                            builder.endpoint(e)
                        } else {
                            builder
                        }
                    },
                    None => builder,
                };
                Some(builder)
            }
        },
    }
}

#[verifier::external_type_specification]
#[verifier::external_body]
#[verifier::reject_recursive_types(T)]
pub struct ExSender<T>(tokio::sync::mpsc::Sender<T>);

/// Relies on tokio's `Sender::try_send`: it returns without ever waiting,
/// handing the message to the channel when a slot is free and giving it
/// back inside an error, which this wrapper drops, when the channel is
/// full or closed.
#[verifier::external_body]
fn try_send_record(tx: &tokio::sync::mpsc::Sender<LogRecord>, rec: LogRecord) -> (accepted: bool) {
    tx.try_send(rec).is_ok()
}

/// Offer one record to the ingress channel without blocking and without
/// surfacing an error: when the channel is full or closed the record is
/// silently dropped, and whether it was kept says nothing about the
/// record itself — the channel alone decides.
pub fn enqueue_record(tx: &tokio::sync::mpsc::Sender<LogRecord>, rec: LogRecord) -> (accepted:
    bool) {
    try_send_record(tx, rec)
}

} // verus!
