//! How a connection is to be handled.
use std::time::Duration;

use vstd::prelude::*;

verus! {

/// The settings of a connection.
pub struct Config {
    /// Whether every chunk of standard input is answered with a request for more.
    pub noisy_stdin: bool,
    /// How often the server must hear from the client, where it must.
    pub heartbeat_frequency: Option<Duration>,
}

impl Default for Config {
    fn default() -> (config: Config)
        ensures
            config == (Config { noisy_stdin: false, heartbeat_frequency: None }),
    {
        Config { noisy_stdin: false, heartbeat_frequency: None }
    }
}

impl Clone for Config {
    fn clone(&self) -> (copy: Config)
        ensures
            copy == *self,
    {
        Config { noisy_stdin: self.noisy_stdin, heartbeat_frequency: self.heartbeat_frequency }
    }
}

impl Config {
    /// Although it is not part of the protocol's description, some clients require that
    /// `StartReadingStdin` is sent after every chunk of standard input that was consumed.
    pub fn noisy_stdin(self, value: bool) -> (config: Config)
        ensures
            config == (Config { noisy_stdin: value, heartbeat_frequency: self.heartbeat_frequency }),
    {
        Config { noisy_stdin: value, heartbeat_frequency: self.heartbeat_frequency }
    }

    /// A heartbeat is a chunk by which a client tells that it is still waiting for a result. By
    /// default a server does not require heartbeats; with a frequency set, it drops a connection on
    /// which nothing arrives for that long.
    pub fn heartbeat_frequency(self, frequency: Duration) -> (config: Config)
        ensures
            config == (Config {
                noisy_stdin: self.noisy_stdin,
                heartbeat_frequency: Some(frequency),
            }),
    {
        Config { noisy_stdin: self.noisy_stdin, heartbeat_frequency: Some(frequency) }
    }
}

/// The whole nanoseconds that a span of time is made of.
pub uninterp spec fn nanos(duration: Duration) -> nat;

/// The `Debug` form of a span of time of so many nanoseconds.
pub uninterp spec fn duration_text(nanos: nat) -> Seq<char>;

/// The `Debug` form that std gives a `Duration`.
#[verifier::external_body]
pub(crate) fn describe_duration(duration: Duration) -> (text: String)
    ensures
        text@ == duration_text(nanos(duration)),
{
    format!("{:?}", duration)
}

/// A `Duration` divided by a number, as std divides it: what is left over of a nanosecond is dropped.
/// It panics where the number is zero.
#[verifier::external_body]
pub(crate) fn divide_duration(duration: Duration, divisor: u32) -> (quotient: Duration)
    requires
        divisor != 0,
    ensures
        nanos(quotient) == nanos(duration) / (divisor as nat),
{
    duration / divisor
}

} // verus!
