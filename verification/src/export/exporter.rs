//! What the exporter counts of the envelopes it receives.

use vstd::prelude::*;
use crate::envelope::Framing;

verus! {

/// The counters of the exporter. Each only grows, and starts over at zero
/// when it passes the largest value it can hold.
#[derive(Clone, Copy, Debug, PartialEq, Eq, Structural)]
pub struct Counters {
    pub bytes_received_no_comp_total: u64,
    pub messages_received_no_comp_total: u64,
    pub bytes_received_comp_total: u64,
    pub messages_received_comp_total: u64,
    pub bytes_received_decomp_total: u64,
}

/// A counter after `n` more were counted.
pub open spec fn counted(total: u64, n: usize) -> u64 {
    ((total + n) % 0x1_0000_0000_0000_0000) as u64
}

/// Adds `n` to a counter.
pub fn count(total: u64, n: usize) -> (r: u64)
    ensures
        r == counted(total, n),
{
    total.wrapping_add(n as u64)
}

/// Sets the counters up, each at zero.
pub fn register() -> (counters: Counters)
    ensures
        counters == (Counters {
            bytes_received_no_comp_total: 0,
            messages_received_no_comp_total: 0,
            bytes_received_comp_total: 0,
            messages_received_comp_total: 0,
            bytes_received_decomp_total: 0,
        }),
{
    Counters {
        bytes_received_no_comp_total: 0,
        messages_received_no_comp_total: 0,
        bytes_received_comp_total: 0,
        messages_received_comp_total: 0,
        bytes_received_decomp_total: 0,
    }
}

impl Counters {
    /// Counts an envelope of `received` bytes that was read to a text of
    /// `text` bytes. A compressed envelope counts as one compressed message
    /// with its bytes as received and as decompressed; a plain one as one
    /// uncompressed message with its bytes. An envelope that is too short to
    /// be framed is not counted.
    pub fn received(&mut self, framing: Framing, received: usize, text: usize)
        ensures
            *final(self) == match framing {
                Framing::Gzip => Counters {
                    bytes_received_comp_total: counted(old(self).bytes_received_comp_total, received),
                    messages_received_comp_total: counted(
                        old(self).messages_received_comp_total,
                        1,
                    ),
                    bytes_received_decomp_total: counted(
                        old(self).bytes_received_decomp_total,
                        text,
                    ),
                    ..*old(self)
                },
                Framing::Plain => Counters {
                    bytes_received_no_comp_total: counted(
                        old(self).bytes_received_no_comp_total,
                        received,
                    ),
                    messages_received_no_comp_total: counted(
                        old(self).messages_received_no_comp_total,
                        1,
                    ),
                    ..*old(self)
                },
                Framing::Short => *old(self),
            },
    {
        match framing {
            Framing::Gzip => {
                self.bytes_received_comp_total = count(self.bytes_received_comp_total, received);
                self.messages_received_comp_total = count(self.messages_received_comp_total, 1);
                self.bytes_received_decomp_total = count(self.bytes_received_decomp_total, text);
            },
            Framing::Plain => {
                self.bytes_received_no_comp_total = count(
                    self.bytes_received_no_comp_total,
                    received,
                );
                self.messages_received_no_comp_total = count(
                    self.messages_received_no_comp_total,
                    1,
                );
            },
            Framing::Short => {},
        }
    }
}

} // verus!
