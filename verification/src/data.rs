//! The fixed-layout records exchanged at the system-call boundary.

use crate::bytes::append;
use vstd::bytes::{
    lemma_auto_spec_u16_to_from_le_bytes, lemma_auto_spec_u32_to_from_le_bytes,
    lemma_auto_spec_u64_to_from_le_bytes, spec_u16_from_le_bytes, spec_u16_to_le_bytes,
    spec_u32_from_le_bytes, spec_u32_to_le_bytes, spec_u64_from_le_bytes, spec_u64_to_le_bytes,
    u16_from_le_bytes, u16_to_le_bytes, u32_from_le_bytes, u32_to_le_bytes, u64_from_le_bytes,
    u64_to_le_bytes,
};
use vstd::prelude::*;

verus! {

/// A readiness event on a resource.
#[derive(Copy, Clone, Debug, PartialEq, Eq, Structural)]
pub struct Event {
    pub id: usize,
    pub flags: usize,
    pub data: usize,
}

/// One request to a scheme, and, once handled, its response.
#[derive(Copy, Clone, Debug, PartialEq, Eq, Structural)]
pub struct Packet {
    pub id: u64,
    pub pid: usize,
    pub uid: u32,
    pub gid: u32,
    pub a: usize,
    pub b: usize,
    pub c: usize,
    pub d: usize,
}

/// What a scheme reports about a resource.
#[derive(Copy, Clone, Debug, PartialEq, Eq, Structural)]
pub struct Stat {
    pub st_mode: u16,
    pub st_uid: u32,
    pub st_gid: u32,
    pub st_size: u64,
}

/// A point in time, or a duration.
#[derive(Copy, Clone, Debug, PartialEq, Eq, Structural)]
pub struct TimeSpec {
    pub tv_sec: i64,
    pub tv_nsec: i32,
}

impl Default for Event {
    fn default() -> (event: Event)
        ensures
            event == (Event { id: 0, flags: 0, data: 0 }),
    {
        Event { id: 0, flags: 0, data: 0 }
    }
}

impl Default for Packet {
    fn default() -> (packet: Packet)
        ensures
            packet == (Packet { id: 0, pid: 0, uid: 0, gid: 0, a: 0, b: 0, c: 0, d: 0 }),
    {
        Packet { id: 0, pid: 0, uid: 0, gid: 0, a: 0, b: 0, c: 0, d: 0 }
    }
}

impl Default for Stat {
    fn default() -> (stat: Stat)
        ensures
            stat == (Stat { st_mode: 0, st_uid: 0, st_gid: 0, st_size: 0 }),
    {
        Stat { st_mode: 0, st_uid: 0, st_gid: 0, st_size: 0 }
    }
}

impl Default for TimeSpec {
    fn default() -> (time: TimeSpec)
        ensures
            time == (TimeSpec { tv_sec: 0, tv_nsec: 0 }),
    {
        TimeSpec { tv_sec: 0, tv_nsec: 0 }
    }
}

/// The number of bytes a [`Stat`] takes on the wire.
pub const STAT_SIZE: usize = 18;

impl Stat {
    /// The record on the wire: its fields in order, each at its own width
    /// and with its low byte first, with nothing between them.
    pub open spec fn encoded(self) -> Seq<u8> {
        spec_u16_to_le_bytes(self.st_mode) + spec_u32_to_le_bytes(self.st_uid)
            + spec_u32_to_le_bytes(self.st_gid) + spec_u64_to_le_bytes(self.st_size)
    }

    /// The record that the first [`STAT_SIZE`] bytes of `bytes` hold.
    pub open spec fn decoded(bytes: Seq<u8>) -> Stat {
        Stat {
            st_mode: spec_u16_from_le_bytes(bytes.subrange(0, 2)),
            st_uid: spec_u32_from_le_bytes(bytes.subrange(2, 6)),
            st_gid: spec_u32_from_le_bytes(bytes.subrange(6, 10)),
            st_size: spec_u64_from_le_bytes(bytes.subrange(10, 18)),
        }
    }

    /// Write the record out.
    pub fn to_bytes(&self) -> (bytes: Vec<u8>)
        ensures
            bytes@ == self.encoded(),
            bytes@.len() == STAT_SIZE,
    {
        proof {
            lemma_auto_spec_u16_to_from_le_bytes();
            lemma_auto_spec_u32_to_from_le_bytes();
            lemma_auto_spec_u64_to_from_le_bytes();
        }
        let mut bytes: Vec<u8> = u16_to_le_bytes(self.st_mode);
        append(&mut bytes, u32_to_le_bytes(self.st_uid).as_slice());
        append(&mut bytes, u32_to_le_bytes(self.st_gid).as_slice());
        append(&mut bytes, u64_to_le_bytes(self.st_size).as_slice());
        bytes
    }

    /// Read the record at the front of a buffer that holds one.
    pub fn read(bytes: &[u8]) -> (stat: Stat)
        requires
            bytes@.len() >= STAT_SIZE,
        ensures
            stat == Stat::decoded(bytes@),
    {
        Stat {
            st_mode: u16_from_le_bytes(&bytes[0..2]),
            st_uid: u32_from_le_bytes(&bytes[2..6]),
            st_gid: u32_from_le_bytes(&bytes[6..10]),
            st_size: u64_from_le_bytes(&bytes[10..18]),
        }
    }

    /// Read a record from the front of `bytes`, where they are enough to
    /// hold one.
    pub fn from_bytes(bytes: &[u8]) -> (stat: Option<Stat>)
        ensures
            stat == (if bytes@.len() >= STAT_SIZE {
                Some(Stat::decoded(bytes@))
            } else {
                None
            }),
    {
        if bytes.len() < STAT_SIZE {
            None
        } else {
            Some(Stat::read(bytes))
        }
    }
}

/// A record that is written out and read back is the same record, whatever
/// follows it in the buffer.
pub proof fn lemma_stat_round_trip(stat: Stat, rest: Seq<u8>)
    ensures
        stat.encoded().len() == STAT_SIZE,
        Stat::decoded(stat.encoded() + rest) == stat,
{
    lemma_auto_spec_u16_to_from_le_bytes();
    lemma_auto_spec_u32_to_from_le_bytes();
    lemma_auto_spec_u64_to_from_le_bytes();
    let bytes = stat.encoded() + rest;
    assert(bytes.subrange(0, 2) =~= spec_u16_to_le_bytes(stat.st_mode));
    assert(bytes.subrange(2, 6) =~= spec_u32_to_le_bytes(stat.st_uid));
    assert(bytes.subrange(6, 10) =~= spec_u32_to_le_bytes(stat.st_gid));
    assert(bytes.subrange(10, 18) =~= spec_u64_to_le_bytes(stat.st_size));
}

/// Bytes that are read as a record and written out again are the same
/// bytes.
pub proof fn lemma_stat_bytes_round_trip(bytes: Seq<u8>)
    requires
        bytes.len() >= STAT_SIZE,
    ensures
        Stat::decoded(bytes).encoded() == bytes.take(STAT_SIZE as int),
{
    lemma_auto_spec_u16_to_from_le_bytes();
    lemma_auto_spec_u32_to_from_le_bytes();
    lemma_auto_spec_u64_to_from_le_bytes();
    assert(Stat::decoded(bytes).encoded() =~= bytes.subrange(0, 2) + bytes.subrange(2, 6)
        + bytes.subrange(6, 10) + bytes.subrange(10, 18));
    assert(bytes.subrange(0, 2) + bytes.subrange(2, 6) + bytes.subrange(6, 10) + bytes.subrange(
        10,
        18,
    ) =~= bytes.take(STAT_SIZE as int));
}

/// The number of bytes a machine word takes on the wire.
pub const WORD_SIZE: usize = 8;

/// The number of bytes an [`Event`] takes on the wire.
pub const EVENT_SIZE: usize = 24;

/// The number of bytes a [`Packet`] takes on the wire.
pub const PACKET_SIZE: usize = 56;

/// A machine word on the wire: eight bytes, the low byte first.
pub open spec fn word_encoded(word: usize) -> Seq<u8> {
    spec_u64_to_le_bytes(word as u64)
}

/// The machine word that eight bytes hold, where it fits a word of this
/// machine.
pub open spec fn word_decoded(bytes: Seq<u8>) -> Option<usize> {
    let value = spec_u64_from_le_bytes(bytes);
    if value <= usize::MAX {
        Some(value as usize)
    } else {
        None
    }
}

/// Write a machine word out.
pub fn word_to_bytes(word: usize) -> (bytes: Vec<u8>)
    ensures
        bytes@ == word_encoded(word),
        bytes@.len() == WORD_SIZE,
{
    proof {
        lemma_auto_spec_u64_to_from_le_bytes();
    }
    u64_to_le_bytes(word as u64)
}

/// Read a machine word from eight bytes.
pub fn word_from_bytes(bytes: &[u8]) -> (word: Option<usize>)
    requires
        bytes@.len() == WORD_SIZE,
    ensures
        word == word_decoded(bytes@),
{
    let value: u64 = u64_from_le_bytes(bytes);
    if value <= usize::MAX as u64 {
        Some(value as usize)
    } else {
        None
    }
}

/// A word that is written out and read back is the same word.
pub proof fn lemma_word_round_trip(word: usize)
    ensures
        word_encoded(word).len() == WORD_SIZE,
        word_decoded(word_encoded(word)) == Some(word),
{
    lemma_auto_spec_u64_to_from_le_bytes();
}

impl Event {
    /// The record on the wire: its three words in order.
    pub open spec fn encoded(self) -> Seq<u8> {
        word_encoded(self.id) + word_encoded(self.flags) + word_encoded(self.data)
    }

    /// The record that the first [`EVENT_SIZE`] bytes of `bytes` hold, where
    /// each of its words fits a word of this machine.
    pub open spec fn decoded(bytes: Seq<u8>) -> Option<Event> {
        match (
            word_decoded(bytes.subrange(0, 8)),
            word_decoded(bytes.subrange(8, 16)),
            word_decoded(bytes.subrange(16, 24)),
        ) {
            (Some(id), Some(flags), Some(data)) => Some(Event { id, flags, data }),
            _ => None,
        }
    }

    /// Write the record out.
    pub fn to_bytes(&self) -> (bytes: Vec<u8>)
        ensures
            bytes@ == self.encoded(),
            bytes@.len() == EVENT_SIZE,
    {
        let mut bytes: Vec<u8> = word_to_bytes(self.id);
        append(&mut bytes, word_to_bytes(self.flags).as_slice());
        append(&mut bytes, word_to_bytes(self.data).as_slice());
        bytes
    }

    /// Read a record from the front of `bytes`, where they are enough to
    /// hold one.
    pub fn from_bytes(bytes: &[u8]) -> (event: Option<Event>)
        ensures
            event == (if bytes@.len() >= EVENT_SIZE {
                Event::decoded(bytes@)
            } else {
                None
            }),
    {
        if bytes.len() < EVENT_SIZE {
            return None;
        }
        match (
            word_from_bytes(&bytes[0..8]),
            word_from_bytes(&bytes[8..16]),
            word_from_bytes(&bytes[16..24]),
        ) {
            (Some(id), Some(flags), Some(data)) => Some(Event { id, flags, data }),
            _ => None,
        }
    }
}

/// An event that is written out and read back is the same event, whatever
/// follows it in the buffer.
pub proof fn lemma_event_round_trip(event: Event, rest: Seq<u8>)
    ensures
        event.encoded().len() == EVENT_SIZE,
        Event::decoded(event.encoded() + rest) == Some(event),
{
    lemma_word_round_trip(event.id);
    lemma_word_round_trip(event.flags);
    lemma_word_round_trip(event.data);
    let bytes = event.encoded() + rest;
    assert(bytes.subrange(0, 8) =~= word_encoded(event.id));
    assert(bytes.subrange(8, 16) =~= word_encoded(event.flags));
    assert(bytes.subrange(16, 24) =~= word_encoded(event.data));
}

impl Packet {
    /// The record on the wire: its fields in order, each at its own width
    /// and with its low byte first, with nothing between them.
    pub open spec fn encoded(self) -> Seq<u8> {
        spec_u64_to_le_bytes(self.id) + word_encoded(self.pid) + spec_u32_to_le_bytes(self.uid)
            + spec_u32_to_le_bytes(self.gid) + word_encoded(self.a) + word_encoded(self.b)
            + word_encoded(self.c) + word_encoded(self.d)
    }

    /// The record that the first [`PACKET_SIZE`] bytes of `bytes` hold, where
    /// each of its words fits a word of this machine.
    pub open spec fn decoded(bytes: Seq<u8>) -> Option<Packet> {
        match (
            word_decoded(bytes.subrange(8, 16)),
            word_decoded(bytes.subrange(24, 32)),
            word_decoded(bytes.subrange(32, 40)),
            word_decoded(bytes.subrange(40, 48)),
            word_decoded(bytes.subrange(48, 56)),
        ) {
            (Some(pid), Some(a), Some(b), Some(c), Some(d)) => Some(
                Packet {
                    id: spec_u64_from_le_bytes(bytes.subrange(0, 8)),
                    pid,
                    uid: spec_u32_from_le_bytes(bytes.subrange(16, 20)),
                    gid: spec_u32_from_le_bytes(bytes.subrange(20, 24)),
                    a,
                    b,
                    c,
                    d,
                },
            ),
            _ => None,
        }
    }

    /// Write the record out.
    pub fn to_bytes(&self) -> (bytes: Vec<u8>)
        ensures
            bytes@ == self.encoded(),
            bytes@.len() == PACKET_SIZE,
    {
        proof {
            lemma_auto_spec_u32_to_from_le_bytes();
            lemma_auto_spec_u64_to_from_le_bytes();
        }
        let mut bytes: Vec<u8> = u64_to_le_bytes(self.id);
        append(&mut bytes, word_to_bytes(self.pid).as_slice());
        append(&mut bytes, u32_to_le_bytes(self.uid).as_slice());
        append(&mut bytes, u32_to_le_bytes(self.gid).as_slice());
        append(&mut bytes, word_to_bytes(self.a).as_slice());
        append(&mut bytes, word_to_bytes(self.b).as_slice());
        append(&mut bytes, word_to_bytes(self.c).as_slice());
        append(&mut bytes, word_to_bytes(self.d).as_slice());
        bytes
    }

    /// Read a record from the front of `bytes`, where they are enough to
    /// hold one.
    pub fn from_bytes(bytes: &[u8]) -> (packet: Option<Packet>)
        ensures
            packet == (if bytes@.len() >= PACKET_SIZE {
                Packet::decoded(bytes@)
            } else {
                None
            }),
    {
        if bytes.len() < PACKET_SIZE {
            return None;
        }
        match (
            word_from_bytes(&bytes[8..16]),
            word_from_bytes(&bytes[24..32]),
            word_from_bytes(&bytes[32..40]),
            word_from_bytes(&bytes[40..48]),
            word_from_bytes(&bytes[48..56]),
        ) {
            (Some(pid), Some(a), Some(b), Some(c), Some(d)) => Some(
                Packet {
                    id: u64_from_le_bytes(&bytes[0..8]),
                    pid,
                    uid: u32_from_le_bytes(&bytes[16..20]),
                    gid: u32_from_le_bytes(&bytes[20..24]),
                    a,
                    b,
                    c,
                    d,
                },
            ),
            _ => None,
        }
    }
}

/// A packet that is written out and read back is the same packet, whatever
/// follows it in the buffer.
pub proof fn lemma_packet_round_trip(packet: Packet, rest: Seq<u8>)
    ensures
        packet.encoded().len() == PACKET_SIZE,
        Packet::decoded(packet.encoded() + rest) == Some(packet),
{
    lemma_auto_spec_u32_to_from_le_bytes();
    lemma_auto_spec_u64_to_from_le_bytes();
    lemma_word_round_trip(packet.pid);
    lemma_word_round_trip(packet.a);
    lemma_word_round_trip(packet.b);
    lemma_word_round_trip(packet.c);
    lemma_word_round_trip(packet.d);
    let bytes = packet.encoded() + rest;
    assert(bytes.subrange(0, 8) =~= spec_u64_to_le_bytes(packet.id));
    assert(bytes.subrange(8, 16) =~= word_encoded(packet.pid));
    assert(bytes.subrange(16, 20) =~= spec_u32_to_le_bytes(packet.uid));
    assert(bytes.subrange(20, 24) =~= spec_u32_to_le_bytes(packet.gid));
    assert(bytes.subrange(24, 32) =~= word_encoded(packet.a));
    assert(bytes.subrange(32, 40) =~= word_encoded(packet.b));
    assert(bytes.subrange(40, 48) =~= word_encoded(packet.c));
    assert(bytes.subrange(48, 56) =~= word_encoded(packet.d));
}

} // verus!
