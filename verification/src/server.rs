//! What the window server's unpublished calls are handed and what their answers mean:
//! the bytes of a remote element token and of a focus event record, and the status
//! codes that say whether an answer holds.

use vstd::prelude::*;

use crate::space::WindowId;

verus! {

/// Carbon's process handle, which the window server still speaks.
pub struct ProcessSerialNumber {
    pub high: u32,
    pub low: u32,
}

impl Default for ProcessSerialNumber {
    fn default() -> (r: ProcessSerialNumber)
        ensures
            r.high == 0 && r.low == 0,
    {
        ProcessSerialNumber { high: 0, low: 0 }
    }
}

/// A shortcut bound to no key reports this key code.
pub const NO_KEY: u16 = 0xFFFF;

/// The tag a remote token carries between the process and the element id.
pub const TOKEN_TAG: u32 = 0x636f_636f;

/// How long a focus event record is.
pub const RECORD_LEN: usize = 0xf8;

/// The four bytes of a 32-bit value, least significant first.
pub open spec fn le_u32(x: u32) -> Seq<u8> {
    seq![
        (x % 256) as u8,
        ((x / 0x100) % 256) as u8,
        ((x / 0x1_0000) % 256) as u8,
        (x / 0x100_0000) as u8,
    ]
}

/// The eight bytes of a 64-bit value, least significant first.
pub open spec fn le_u64(x: u64) -> Seq<u8> {
    seq![
        (x % 256) as u8,
        ((x / 0x100) % 256) as u8,
        ((x / 0x1_0000) % 256) as u8,
        ((x / 0x100_0000) % 256) as u8,
        ((x / 0x1_0000_0000) % 256) as u8,
        ((x / 0x100_0000_0000) % 256) as u8,
        ((x / 0x1_0000_0000_0000) % 256) as u8,
        (x / 0x100_0000_0000_0000) as u8,
    ]
}

fn push_u32(out: &mut Vec<u8>, x: u32)
    ensures
        final(out)@ == old(out)@ + le_u32(x),
{
    out.push((x % 256) as u8);
    out.push(((x / 0x100) % 256) as u8);
    out.push(((x / 0x1_0000) % 256) as u8);
    out.push((x / 0x100_0000) as u8);
    assert(final(out)@ =~= old(out)@ + le_u32(x));
}

fn push_u64(out: &mut Vec<u8>, x: u64)
    ensures
        final(out)@ == old(out)@ + le_u64(x),
{
    out.push((x % 256) as u8);
    out.push(((x / 0x100) % 256) as u8);
    out.push(((x / 0x1_0000) % 256) as u8);
    out.push(((x / 0x100_0000) % 256) as u8);
    out.push(((x / 0x1_0000_0000) % 256) as u8);
    out.push(((x / 0x100_0000_0000) % 256) as u8);
    out.push(((x / 0x1_0000_0000_0000) % 256) as u8);
    out.push((x / 0x100_0000_0000_0000) as u8);
    assert(final(out)@ =~= old(out)@ + le_u64(x));
}

/// The token that names one accessibility element of a process: the process id, zero,
/// the tag, then the element id, each least significant byte first.
pub open spec fn token_bytes(pid: i32, element_id: u64) -> Seq<u8> {
    le_u32(pid as u32) + le_u32(0) + le_u32(TOKEN_TAG) + le_u64(element_id)
}

/// The 20-byte token the window server hands back element `element_id` of process
/// `pid` for.
pub fn remote_token(pid: i32, element_id: u64) -> (r: Vec<u8>)
    ensures
        r@ == token_bytes(pid, element_id),
        r@.len() == 20,
{
    let mut token: Vec<u8> = Vec::new();
    push_u32(&mut token, pid as u32);
    push_u32(&mut token, 0);
    push_u32(&mut token, TOKEN_TAG);
    push_u64(&mut token, element_id);
    assert(token@ =~= token_bytes(pid, element_id));
    token
}

/// Byte `at` of the event record that makes `window` key, in step `phase` (1, then 2):
/// its length at 0x04, the phase at 0x08, a run of 0xff at 0x20 to 0x30, 0x10 at 0x3a,
/// and the window id at 0x3c, least significant byte first; zero elsewhere.
pub open spec fn record_byte(window: WindowId, phase: u8, at: int) -> u8 {
    if at == 0x04 {
        0xf8
    } else if at == 0x08 {
        phase
    } else if 0x20 <= at < 0x30 {
        0xff
    } else if at == 0x3a {
        0x10
    } else if 0x3c <= at < 0x40 {
        le_u32(window)[at - 0x3c]
    } else {
        0
    }
}

/// The event record that makes `window` key without raising its application's other
/// windows; it is posted twice, in phase 1 and then in phase 2.
pub fn focus_record(window: WindowId, phase: u8) -> (r: Vec<u8>)
    ensures
        r@.len() == RECORD_LEN,
        forall|at: int| 0 <= at < RECORD_LEN ==> #[trigger] r@[at] == record_byte(window, phase, at),
{
    let mut id: Vec<u8> = Vec::new();
    push_u32(&mut id, window);
    let mut record: Vec<u8> = Vec::new();
    let mut at: usize = 0;
    while at < RECORD_LEN
        invariant
            at <= RECORD_LEN,
            id@ == le_u32(window),
            record@.len() == at,
            forall|k: int| 0 <= k < at ==> #[trigger] record@[k] == record_byte(window, phase, k),
        decreases RECORD_LEN - at,
    {
        let byte: u8 = if at == 0x04 {
            0xf8
        } else if at == 0x08 {
            phase
        } else if 0x20 <= at && at < 0x30 {
            0xff
        } else if at == 0x3a {
            0x10
        } else if 0x3c <= at && at < 0x40 {
            id[at - 0x3c]
        } else {
            0
        };
        record.push(byte);
        at = at + 1;
    }
    record
}

/// The window id an accessibility element stands for, from the status and id the
/// window server answers: none unless the call succeeded with an id.
pub fn window_id_from(status: i32, id: WindowId) -> (r: Option<WindowId>)
    ensures
        r == (if status == 0 && id != 0 {
            Some(id)
        } else {
            None
        }),
{
    if status == 0 && id != 0 {
        Some(id)
    } else {
        None
    }
}

/// A window's level from the status and level the window server answers.
pub fn level_from(status: i32, level: i32) -> (r: Option<i32>)
    ensures
        r == (if status == 0 {
            Some(level)
        } else {
            None
        }),
{
    if status == 0 {
        Some(level)
    } else {
        None
    }
}

/// The key code and modifier flags bound to a system shortcut, from what the window
/// server answers: none when the call failed or the shortcut is bound to no key.
pub fn hotkey_binding(status: i32, keycode: u16, modifiers: u32) -> (r: Option<(u16, u32)>)
    ensures
        r == (if status == 0 && keycode != NO_KEY {
            Some((keycode, modifiers))
        } else {
            None
        }),
{
    if status != 0 || keycode == NO_KEY {
        None
    } else {
        Some((keycode, modifiers))
    }
}

} // verus!
