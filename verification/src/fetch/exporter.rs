//! What the scraper records of its own work.

use vstd::prelude::*;

verus! {

/// The integer gauges of the scraper. Each holds the value of the latest
/// observation.
#[derive(Clone, Copy, Debug, PartialEq, Eq, Structural)]
pub struct Gauges {
    /// Whether the latest envelope was compressed: 1 or 0.
    pub compression: i64,
    /// The size of the latest serialised batch, in bytes.
    pub size: i64,
    /// The size of the latest envelope, in bytes.
    pub compressed_size: i64,
    /// The quality of service of the latest envelope that was published.
    pub mqtt_qos: i64,
    /// Whether the latest attempt to publish succeeded: 1 or 0.
    pub mqtt_success: i64,
}

/// A number of bytes as a gauge shows it: the number itself, or the largest
/// value of a gauge where the number is beyond it.
pub open spec fn gauge_of(n: usize) -> i64 {
    if n <= i64::MAX {
        n as i64
    } else {
        i64::MAX
    }
}

/// Converts a number of bytes to the value of a gauge.
pub fn gauge_value(n: usize) -> (v: i64)
    ensures
        v == gauge_of(n),
{
    if n as u64 <= i64::MAX as u64 {
        n as i64
    } else {
        i64::MAX
    }
}

/// Sets the gauges up, each at zero.
pub fn register() -> (gauges: Gauges)
    ensures
        gauges == (Gauges {
            compression: 0,
            size: 0,
            compressed_size: 0,
            mqtt_qos: 0,
            mqtt_success: 0,
        }),
{
    Gauges { compression: 0, size: 0, compressed_size: 0, mqtt_qos: 0, mqtt_success: 0 }
}

impl Gauges {
    /// Records the size of a serialised batch before it goes into an envelope.
    pub fn batch_serialised(&mut self, size: usize)
        ensures
            *final(self) == (Gauges { size: gauge_of(size), ..*old(self) }),
    {
        self.size = gauge_value(size);
    }

    /// Records an envelope of `size` bytes.
    pub fn envelope_built(&mut self, size: usize, compress: bool)
        ensures
            *final(self) == (Gauges {
                compression: if compress {
                    1i64
                } else {
                    0i64
                },
                compressed_size: gauge_of(size),
                ..*old(self)
            }),
    {
        self.compression = if compress {
            1
        } else {
            0
        };
        self.compressed_size = gauge_value(size);
    }

    /// Records an attempt to publish an envelope with the given quality of
    /// service. The quality of service is kept only of an attempt that
    /// succeeded.
    pub fn published(&mut self, qos: i32, success: bool)
        ensures
            *final(self) == if success {
                Gauges { mqtt_qos: qos as i64, mqtt_success: 1, ..*old(self) }
            } else {
                Gauges { mqtt_success: 0, ..*old(self) }
            },
    {
        if success {
            self.mqtt_qos = qos as i64;
            self.mqtt_success = 1;
        } else {
            self.mqtt_success = 0;
        }
    }
}

} // verus!
