//! MIDI routing types: port bitmask and tagged output messages.
//!
//! The controller uses these to express routing decisions.
//! Firmware maps port bits to physical hardware (UART, USB, BLE).

use vstd::prelude::*;

verus! {

/// Bitmask of MIDI ports. Extensible: new ports are new bits.
#[derive(Debug, Clone, Copy, PartialEq, Eq, Structural)]
pub struct MidiPort {
    pub bits: u8,
}

impl MidiPort {
    /// No port.
    pub fn empty() -> (r: Self)
        ensures
            r.bits == 0,
    {
        MidiPort { bits: 0 }
    }

    /// DIN 5-pin MIDI (UART)
    pub fn din() -> (r: Self)
        ensures
            r.bits == 0x01,
    {
        MidiPort { bits: 0x01 }
    }

    /// USB MIDI
    pub fn usb() -> (r: Self)
        ensures
            r.bits == 0x02,
    {
        MidiPort { bits: 0x02 }
    }

    /// Bluetooth LE MIDI (future)
    pub fn ble() -> (r: Self)
        ensures
            r.bits == 0x04,
    {
        MidiPort { bits: 0x04 }
    }

    /// All currently defined ports.
    pub fn all() -> (r: Self)
        ensures
            r.bits == 0x03,
    {
        assert(0x01u8 | 0x02u8 == 0x03u8) by (bit_vector);
        MidiPort::din().union(MidiPort::usb())
    }

    /// Whether no port is set.
    pub fn is_empty(self) -> (r: bool)
        ensures
            r == (self.bits == 0),
    {
        self.bits == 0
    }

    /// Whether every port of `other` is set.
    pub open spec fn has(self, other: MidiPort) -> bool {
        self.bits & other.bits == other.bits
    }

    /// Whether every port of `other` is set.
    pub fn contains(self, other: MidiPort) -> (r: bool)
        ensures
            r == self.has(other),
    {
        self.bits & other.bits == other.bits
    }

    /// The ports of either.
    pub fn union(self, other: MidiPort) -> (r: Self)
        ensures
            r.bits == self.bits | other.bits,
    {
        MidiPort { bits: self.bits | other.bits }
    }
}

/// A union has the ports of both its parts, and no port that neither has.
pub proof fn law_union(a: MidiPort, b: MidiPort, port: MidiPort)
    ensures
        ({
            let both = MidiPort { bits: a.bits | b.bits };
            &&& both.has(a)
            &&& both.has(b)
            &&& a.bits & port.bits == 0 && b.bits & port.bits == 0 ==> both.bits & port.bits == 0
        }),
{
    let x = a.bits;
    let y = b.bits;
    let z = port.bits;
    assert((x | y) & x == x && (x | y) & y == y && (x & z == 0 && y & z == 0 ==> (x | y) & z == 0))
        by (bit_vector);
}

/// A MIDI message tagged with destination port(s).
#[derive(Debug, Clone, Copy, PartialEq, Eq)]
pub struct MidiOut {
    /// Raw MIDI bytes (fits MIDI 1.0 and future MIDI 2.0 UMP).
    pub data: [u8; 8],
    /// Number of valid bytes in `data`.
    pub len: u8,
    /// Destination ports (bitmask).
    pub dest: MidiPort,
}

/// The `i`th byte of `data`, or 0 past its end.
pub open spec fn byte_or_zero(data: Seq<u8>, i: int) -> u8 {
    if i < data.len() {
        data[i]
    } else {
        0
    }
}

impl MidiOut {
    /// The message of the first 8 bytes of `data` for `dest`; the rest is zero.
    pub open spec fn routed(data: Seq<u8>, dest: MidiPort) -> MidiOut {
        MidiOut {
            data: [
                byte_or_zero(data, 0),
                byte_or_zero(data, 1),
                byte_or_zero(data, 2),
                byte_or_zero(data, 3),
                byte_or_zero(data, 4),
                byte_or_zero(data, 5),
                byte_or_zero(data, 6),
                byte_or_zero(data, 7),
            ],
            len: if data.len() < 8 {
                data.len() as u8
            } else {
                8
            },
            dest,
        }
    }

    /// Create a MIDI 1.0 channel message (up to 3 bytes) for the given destination(s).
    pub fn new(data: &[u8], dest: MidiPort) -> (r: Self)
        ensures
            r == MidiOut::routed(data@, dest),
    {
        let mut buf: [u8; 8] = [0u8; 8];
        let len: usize = if data.len() < 8 {
            data.len()
        } else {
            8
        };
        let mut i: usize = 0;
        while i < len
            invariant
                i <= len <= 8,
                len <= data@.len(),
                forall|k: int| 0 <= k < i ==> #[trigger] buf@[k] == data@[k],
                forall|k: int| i <= k < 8 ==> #[trigger] buf@[k] == 0,
            decreases len - i,
        {
            buf[i] = data[i];
            i += 1;
        }
        assert(buf =~= MidiOut::routed(data@, dest).data);
        MidiOut { data: buf, len: len as u8, dest }
    }

    /// The message bytes.
    pub fn bytes(&self) -> (r: &[u8])
        requires
            self.len <= 8,
        ensures
            r@ == self.data@.take(self.len as int),
    {
        let end: usize = self.len as usize;
        vstd::slice::slice_subrange(self.data.as_slice(), 0, end)
    }
}

/// A routed message gives back the bytes it was made from, where they fit.
pub proof fn law_routed_bytes(data: Seq<u8>, dest: MidiPort)
    requires
        data.len() <= 8,
    ensures
        MidiOut::routed(data, dest).len == data.len(),
        MidiOut::routed(data, dest).data@.take(data.len() as int) == data,
{
    assert(MidiOut::routed(data, dest).data@.take(data.len() as int) =~= data);
}

} // verus!
