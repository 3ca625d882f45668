//! Records of the kernel's input-event stream and their decoding.

use crate::error::TruncatedRecord;
use vstd::prelude::*;

verus! {

/// Record class of key events.
pub const EV_KEY: u16 = 1;

/// Width in bytes of one record: two 64-bit timestamp fields, a 16-bit type,
/// a 16-bit code and a 32-bit value, all little-endian.
pub const INPUT_EVENT_SIZE: usize = 24;

/// Direction of a key transition. Autorepeat has no direction of its own.
#[derive(Clone, Copy, Debug, PartialEq, Eq, Structural)]
pub enum KeyPressState {
    Up,
    Down,
}

/// One record of the input-event stream.
#[derive(Clone, Copy, Debug, PartialEq, Eq, Structural)]
pub struct InputEvent {
    pub time_sec: i64,
    pub time_usec: i64,
    pub type_: u16,
    pub code: u16,
    pub value: i32,
}

/// The direction a record's value stands for: 0 is a release, 1 a press, and
/// every other value (autorepeat among them) stands for none.
pub open spec fn press_state_of(value: i32) -> Option<KeyPressState> {
    if value == 0 {
        Some(KeyPressState::Up)
    } else if value == 1 {
        Some(KeyPressState::Down)
    } else {
        None
    }
}

/// The direction of the transition that a record reports, where it reports
/// one.
pub fn event_press_state(event: &InputEvent) -> (state: Option<KeyPressState>)
    ensures
        state == press_state_of(event.value),
{
    if event.value == 0 {
        Some(KeyPressState::Up)
    } else if event.value == 1 {
        Some(KeyPressState::Down)
    } else {
        None
    }
}

/// Whether a transition is a press.
pub fn is_keydown(press_state: &KeyPressState) -> (down: bool)
    ensures
        down <==> *press_state == KeyPressState::Down,
{
    *press_state == KeyPressState::Down
}

/// The unsigned 16-bit number held little-endian in `bytes` from `at` on.
pub open spec fn le_u16(bytes: Seq<u8>, at: int) -> int {
    bytes[at] + 0x100 * bytes[at + 1]
}

/// The unsigned 32-bit number held little-endian in `bytes` from `at` on.
pub open spec fn le_u32(bytes: Seq<u8>, at: int) -> int {
    le_u16(bytes, at) + 0x1_0000 * le_u16(bytes, at + 2)
}

/// The unsigned 64-bit number held little-endian in `bytes` from `at` on.
pub open spec fn le_u64(bytes: Seq<u8>, at: int) -> int {
    le_u32(bytes, at) + 0x1_0000_0000 * le_u32(bytes, at + 4)
}

/// Two's-complement reading of an unsigned 32-bit number.
pub open spec fn signed32(x: int) -> int {
    if x < 0x8000_0000 {
        x
    } else {
        x - 0x1_0000_0000
    }
}

/// Two's-complement reading of an unsigned 64-bit number.
pub open spec fn signed64(x: int) -> int {
    if x < 0x8000_0000_0000_0000 {
        x
    } else {
        x - 0x1_0000_0000_0000_0000
    }
}

/// The record that a block of `INPUT_EVENT_SIZE` bytes holds, field by field.
pub open spec fn decode_record(bytes: Seq<u8>) -> InputEvent {
    InputEvent {
        time_sec: signed64(le_u64(bytes, 0)) as i64,
        time_usec: signed64(le_u64(bytes, 8)) as i64,
        type_: le_u16(bytes, 16) as u16,
        code: le_u16(bytes, 18) as u16,
        value: signed32(le_u32(bytes, 20)) as i32,
    }
}

fn read_u16(bytes: &[u8], at: usize) -> (x: u16)
    requires
        at + 2 <= bytes.len(),
    ensures
        x == le_u16(bytes@, at as int),
{
    let lo: u16 = bytes[at] as u16;
    let hi: u16 = bytes[at + 1] as u16;
    lo + 0x100 * hi
}

fn read_u32(bytes: &[u8], at: usize) -> (x: u32)
    requires
        at + 4 <= bytes.len(),
    ensures
        x == le_u32(bytes@, at as int),
{
    let lo: u32 = read_u16(bytes, at) as u32;
    let hi: u32 = read_u16(bytes, at + 2) as u32;
    lo + 0x1_0000 * hi
}

fn read_u64(bytes: &[u8], at: usize) -> (x: u64)
    requires
        at + 8 <= bytes.len(),
    ensures
        x == le_u64(bytes@, at as int),
{
    let lo: u64 = read_u32(bytes, at) as u64;
    let hi: u64 = read_u32(bytes, at + 4) as u64;
    lo + 0x1_0000_0000 * hi
}

fn read_i32(bytes: &[u8], at: usize) -> (x: i32)
    requires
        at + 4 <= bytes.len(),
    ensures
        x == signed32(le_u32(bytes@, at as int)),
{
    let raw: u32 = read_u32(bytes, at);
    if raw < 0x8000_0000 {
        raw as i32
    } else {
        let low: i32 = (raw - 0x8000_0000) as i32;
        low + i32::MIN
    }
}

fn read_i64(bytes: &[u8], at: usize) -> (x: i64)
    requires
        at + 8 <= bytes.len(),
    ensures
        x == signed64(le_u64(bytes@, at as int)),
{
    let raw: u64 = read_u64(bytes, at);
    if raw < 0x8000_0000_0000_0000 {
        raw as i64
    } else {
        let low: i64 = (raw - 0x8000_0000_0000_0000) as i64;
        low + i64::MIN
    }
}

impl InputEvent {
    /// Decodes one record. A block of any other length than
    /// `INPUT_EVENT_SIZE` holds no record.
    pub fn from_bytes(bytes: &[u8]) -> (event: Option<InputEvent>)
        ensures
            event == if bytes@.len() == INPUT_EVENT_SIZE {
                Some(decode_record(bytes@))
            } else {
                None
            },
    {
        if bytes.len() != INPUT_EVENT_SIZE {
            return None;
        }
        Some(
            InputEvent {
                time_sec: read_i64(bytes, 0),
                time_usec: read_i64(bytes, 8),
                type_: read_u16(bytes, 16),
                code: read_u16(bytes, 18),
                value: read_i32(bytes, 20),
            },
        )
    }

    /// Whether the record belongs to the key class.
    pub fn is_key_event(&self) -> (key: bool)
        ensures
            key <==> self.type_ == EV_KEY,
    {
        self.type_ == EV_KEY
    }
}

/// The record that `bytes` holds at place `index`, counted in records.
pub open spec fn record_at(bytes: Seq<u8>, index: int) -> InputEvent {
    decode_record(bytes.subrange(index * INPUT_EVENT_SIZE, (index + 1) * INPUT_EVENT_SIZE))
}

/// The whole records that `bytes` holds, in their order.
pub open spec fn records_of(bytes: Seq<u8>) -> Seq<InputEvent> {
    Seq::new(bytes.len() / (INPUT_EVENT_SIZE as nat), |index: int| record_at(bytes, index))
}

/// The test for a record of the key class.
pub open spec fn key_class() -> spec_fn(InputEvent) -> bool {
    |event: InputEvent| event.type_ == EV_KEY
}

/// The records of the key class that `bytes` holds, in their order.
pub open spec fn key_records(bytes: Seq<u8>) -> Seq<InputEvent> {
    records_of(bytes).filter(key_class())
}

/// Decodes a block of the device stream into its key records, in the order of
/// the stream; records of every other class are left out. A block that ends
/// within a record is refused as a whole.
pub fn read_key_events(bytes: &[u8]) -> (events: Result<Vec<InputEvent>, TruncatedRecord>)
    ensures
        match events {
            Ok(list) => bytes@.len() % (INPUT_EVENT_SIZE as nat) == 0 && list@ == key_records(
                bytes@,
            ),
            Err(e) => e.stray_bytes != 0 && e.stray_bytes == bytes@.len() % (
            INPUT_EVENT_SIZE as nat),
        },
{
    let count = bytes.len() / INPUT_EVENT_SIZE;
    let stray_bytes = bytes.len() % INPUT_EVENT_SIZE;
    if stray_bytes != 0 {
        return Err(TruncatedRecord { stray_bytes });
    }
    let ghost records = records_of(bytes@);
    let mut list: Vec<InputEvent> = Vec::new();
    let mut i: usize = 0;
    while i < count
        invariant
            bytes.len() == count * INPUT_EVENT_SIZE,
            records == records_of(bytes@),
            records.len() == count,
            i <= count,
            list@ == records.take(i as int).filter(key_class()),
        decreases count - i,
    {
        let start = i * INPUT_EVENT_SIZE;
        let block = &bytes[start..start + INPUT_EVENT_SIZE];
        match InputEvent::from_bytes(block) {
            Some(event) => {
                if event.is_key_event() {
                    list.push(event);
                }
            },
            None => {},
        }
        proof {
            assert(records.take(i + 1) =~= records.take(i as int).push(records[i as int]));
            records.take(i as int).lemma_filter_push(records[i as int], key_class());
        }
        i += 1;
    }
    proof {
        assert(records.take(count as int) =~= records);
    }
    Ok(list)
}

} // verus!
