//! The daemon's settings.

use vstd::prelude::*;

verus! {

#[derive(Debug, Clone)]
pub struct Config {
    /// The path of the socket that producers connect to.
    pub socket_path: String,
    /// The MQTT server; reserved, not used by the relay pipeline.
    pub mqtt_host: String,
    /// How many events are kept while no relay is connected.
    pub buffer_size: usize,
    /// The local TCP port of the uploader that events are relayed to.
    pub relay_port: u16,
    /// Whether debug logs are shown.
    pub verbose: bool,
}

} // verus!
