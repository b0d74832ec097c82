//! Process configuration: the options the consumer recognizes, with their
//! defaults. Loading and deserializing the options from a file is the
//! surrounding program's concern; the library only defines the shapes and
//! the default values.

use vstd::prelude::*;

verus! {

/// All recognized options.
#[derive(Debug)]
pub struct Config {
    pub mqtt: MqttConfig,
    pub postgres: PostgresConfig,
    pub topics: TopicsConfig,
}

/// The broker connection options.
#[derive(Debug)]
pub struct MqttConfig {
    pub broker_ip: String,
    pub broker_port: u16,
    pub client_name: String,
    pub keep_alive_seconds: KeepAliveSeconds,
    pub max_packet_size: MaxPacketSize,
}

impl Default for MqttConfig {
    fn default() -> (r: Self)
        ensures
            r.broker_ip@ == Seq::<char>::empty(),
            r.broker_port == 0,
            r.client_name@ == Seq::<char>::empty(),
            r.keep_alive_seconds.0 == 5,
            r.max_packet_size.0 == 100000,
    {
        MqttConfig {
            broker_ip: String::new(),
            broker_port: 0,
            client_name: String::new(),
            keep_alive_seconds: KeepAliveSeconds(5),
            max_packet_size: MaxPacketSize(100000),
        }
    }
}

/// Keep alive in seconds.
#[derive(Debug)]
pub struct KeepAliveSeconds(pub u64);

impl Default for KeepAliveSeconds {
    fn default() -> (r: Self)
        ensures
            r.0 == 5,
    {
        KeepAliveSeconds(5)
    }
}

impl From<KeepAliveSeconds> for u64 {
    fn from(val: KeepAliveSeconds) -> (r: u64) {
        val.0
    }
}

impl vstd::std_specs::convert::FromSpecImpl<KeepAliveSeconds> for u64 {
    open spec fn obeys_from_spec() -> bool {
        true
    }

    open spec fn from_spec(v: KeepAliveSeconds) -> u64 {
        v.0
    }
}

/// The largest accepted packet, in bytes.
#[derive(Debug)]
pub struct MaxPacketSize(pub u32);

impl Default for MaxPacketSize {
    fn default() -> (r: Self)
        ensures
            r.0 == 100000,
    {
        MaxPacketSize(100000)
    }
}

impl From<MaxPacketSize> for u32 {
    fn from(val: MaxPacketSize) -> (r: u32) {
        val.0
    }
}

impl vstd::std_specs::convert::FromSpecImpl<MaxPacketSize> for u32 {
    open spec fn obeys_from_spec() -> bool {
        true
    }

    open spec fn from_spec(v: MaxPacketSize) -> u32 {
        v.0
    }
}

/// The store connection options.
#[derive(Debug)]
pub struct PostgresConfig {
    pub connection_string: String,
    /// Whether a newly created table is converted to a time-partitioned
    /// one. Off unless configured.
    pub timescale: bool,
}

impl Default for PostgresConfig {
    fn default() -> (r: Self)
        ensures
            r.connection_string@ == Seq::<char>::empty(),
            !r.timescale,
    {
        PostgresConfig { connection_string: String::new(), timescale: false }
    }
}

/// Which topics to subscribe to, and which to ignore.
#[derive(Debug)]
pub struct TopicsConfig {
    pub subscribe: Vec<TopicSubscribe>,
    pub ignore: Vec<TopicIgnore>,
}

impl Default for TopicsConfig {
    fn default() -> (r: Self)
        ensures
            r.subscribe@.len() == 0,
            r.ignore@.len() == 0,
    {
        TopicsConfig { subscribe: Vec::new(), ignore: Vec::new() }
    }
}

/// One topic to subscribe to.
#[derive(Debug)]
pub struct TopicSubscribe {
    pub topic: String,
}

impl Default for TopicSubscribe {
    fn default() -> (r: Self)
        ensures
            r.topic@ == Seq::<char>::empty(),
    {
        TopicSubscribe { topic: String::new() }
    }
}

/// One topic to ignore.
#[derive(Debug)]
pub struct TopicIgnore {
    pub topic: String,
}

impl Default for TopicIgnore {
    fn default() -> (r: Self)
        ensures
            r.topic@ == Seq::<char>::empty(),
    {
        TopicIgnore { topic: String::new() }
    }
}

} // verus!
