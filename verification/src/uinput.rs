//! The records the launcher writes to the kernel's uinput device to create a
//! virtual keyboard and press a key on it (the layouts of 32-bit ARM
//! Linux, little-endian).
use vstd::prelude::*;

verus! {

/// The key event type.
pub const EV_KEY: u16 = 1;
/// The synchronization event type.
pub const EV_SYN: u16 = 0;
/// The F9 key, which makes MiSTer switch its framebuffer display on.
pub const KEY_F9: u16 = 67;
/// Size of the name field of a uinput device record.
pub const UINPUT_NAME_SIZE: usize = 80;
/// Size of a whole uinput device record: the name, the device ID (four
/// `u16`), the force feedback effect count (`u32`), and four tables of 64
/// `i32` axis limits.
pub const UINPUT_DEVICE_RECORD_SIZE: usize = 1116;

/// The little-endian bytes of a `u16`.
pub open spec fn u16_le(v: u16) -> Seq<u8> {
    seq![(v % 256) as u8, (v / 256) as u8]
}

/// The little-endian bytes of a `u32`.
pub open spec fn u32_le(v: u32) -> Seq<u8> {
    seq![(v % 256) as u8, ((v / 256) % 256) as u8, ((v / 65536) % 256) as u8, (v / 16777216) as u8]
}

/// The little-endian two's complement bytes of an `i32`.
pub open spec fn i32_le(v: i32) -> Seq<u8> {
    u32_le(if v >= 0 {
        v as u32
    } else {
        (v + 0x1_0000_0000) as u32
    })
}

/// An input event record: seconds and microseconds of its time, its type,
/// its code and its value.
pub open spec fn input_event_bytes(sec: i32, usec: i32, kind: u16, code: u16, value: i32) -> Seq<u8> {
    i32_le(sec) + i32_le(usec) + u16_le(kind) + u16_le(code) + i32_le(value)
}

/// `n` zero bytes.
pub open spec fn zeros(n: nat) -> Seq<u8> {
    Seq::new(n, |i: int| 0u8)
}

fn push_u16_le(out: &mut Vec<u8>, v: u16)
    ensures
        final(out)@ == old(out)@ + u16_le(v),
{
    out.push((v % 256) as u8);
    out.push((v / 256) as u8);
}

fn push_u32_le(out: &mut Vec<u8>, v: u32)
    ensures
        final(out)@ == old(out)@ + u32_le(v),
{
    out.push((v % 256) as u8);
    out.push(((v / 256) % 256) as u8);
    out.push(((v / 65536) % 256) as u8);
    out.push((v / 16777216) as u8);
}

fn push_i32_le(out: &mut Vec<u8>, v: i32)
    ensures
        final(out)@ == old(out)@ + i32_le(v),
{
    let u: u32 = if v >= 0 {
        v as u32
    } else {
        ((v as i64) + 0x1_0000_0000i64) as u32
    };
    push_u32_le(out, u);
}

/// The record of one input event.
pub fn input_event_record(sec: i32, usec: i32, kind: u16, code: u16, value: i32) -> (r: Vec<u8>)
    ensures
        r@ == input_event_bytes(sec, usec, kind, code, value),
        r@.len() == 16,
{
    let mut out: Vec<u8> = Vec::new();
    push_i32_le(&mut out, sec);
    push_i32_le(&mut out, usec);
    push_u16_le(&mut out, kind);
    push_u16_le(&mut out, code);
    push_i32_le(&mut out, value);
    out
}

/// The record that creates a uinput device named `name`: the name, padded
/// with zeros, and every other field zero.
pub fn uinput_device_record(name: &[u8]) -> (r: Vec<u8>)
    requires
        name@.len() < UINPUT_NAME_SIZE,
    ensures
        r@ == name@ + zeros((UINPUT_DEVICE_RECORD_SIZE - name@.len()) as nat),
        r@.len() == UINPUT_DEVICE_RECORD_SIZE,
{
    let mut out: Vec<u8> = Vec::new();
    let n = name.len();
    let mut i: usize = 0;
    while i < n
        invariant
            n == name@.len(),
            i <= n,
            out@ == name@.take(i as int),
        decreases n - i,
    {
        out.push(name[i]);
        i += 1;
        assert(out@ =~= name@.take(i as int));
    }
    assert(name@.take(n as int) =~= name@);
    while i < UINPUT_DEVICE_RECORD_SIZE
        invariant
            n == name@.len(),
            n <= i <= UINPUT_DEVICE_RECORD_SIZE,
            out@ == name@ + zeros((i - n) as nat),
        decreases UINPUT_DEVICE_RECORD_SIZE - i,
    {
        out.push(0u8);
        i += 1;
        assert(out@ =~= name@ + zeros((i - n) as nat));
    }
    out
}

} // verus!
