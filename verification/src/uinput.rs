//! The records written to the kernel's virtual input device: the device
//! description that creates the keyboard and the input events it sends,
//! laid out field by field in the machine's byte order.
use vstd::prelude::*;

verus! {

/// The event type of a key press or release.
pub const EV_KEY: u16 = 1;

/// The event type that closes a batch of events.
pub const EV_SYN: u16 = 0;

/// The bus the virtual keyboard claims to sit on (USB).
pub const BUS_USB: u16 = 3;

/// The vendor number the virtual keyboard reports.
pub const VENDOR: u16 = 0x4749;

/// The product number the virtual keyboard reports.
pub const PRODUCT: u16 = 0x5459;

/// The length of the name field of a device description.
pub const NAME_LEN: usize = 80;

/// The number of axis values in each of the four axis tables.
pub const ABS_CNT: usize = 64;

/// `n` zero bytes.
pub open spec fn zeros(n: nat) -> Seq<u8> {
    Seq::new(n, |i: int| 0u8)
}

/// The two bytes of a 16-bit field in the given byte order.
pub open spec fn bytes16(v: u16, little_endian: bool) -> Seq<u8> {
    let lo = (v % 256) as u8;
    let hi = (v / 256) as u8;
    if little_endian {
        seq![lo, hi]
    } else {
        seq![hi, lo]
    }
}

/// The four bytes of a 32-bit field in the given byte order.
pub open spec fn bytes32(v: u32, little_endian: bool) -> Seq<u8> {
    let b0 = (v % 256) as u8;
    let b1 = (v / 256 % 256) as u8;
    let b2 = (v / 65536 % 256) as u8;
    let b3 = (v / 16777216) as u8;
    if little_endian {
        seq![b0, b1, b2, b3]
    } else {
        seq![b3, b2, b1, b0]
    }
}

/// The bits of a signed 32-bit value read as unsigned (two's complement).
pub open spec fn unsigned32(v: i32) -> u32 {
    (if v < 0 {
        v + 0x1_0000_0000
    } else {
        v as int
    }) as u32
}

/// The name the virtual keyboard is created with: "GigaType virtual keyboard".
pub open spec fn device_name() -> Seq<u8> {
    seq![
        71u8, 105, 103, 97, 84, 121, 112, 101, 32, 118, 105, 114, 116, 117, 97, 108, 32, 107, 101,
        121, 98, 111, 97, 114, 100,
    ]
}

/// One input event: a zeroed timestamp of `time_len` bytes, then the
/// event's type, code and value.
pub open spec fn input_event(
    event_type: u16,
    code: u16,
    value: i32,
    time_len: nat,
    little_endian: bool,
) -> Seq<u8> {
    zeros(time_len) + bytes16(event_type, little_endian) + bytes16(code, little_endian) + bytes32(
        unsigned32(value),
        little_endian,
    )
}

/// The description that creates the virtual keyboard: its name padded to
/// the name field, its identity (bus, vendor, product, version 1), no force
/// feedback effects and four empty axis tables.
pub open spec fn device_setup(little_endian: bool) -> Seq<u8> {
    device_name() + zeros((NAME_LEN - device_name().len()) as nat) + bytes16(BUS_USB, little_endian)
        + bytes16(VENDOR, little_endian) + bytes16(PRODUCT, little_endian) + bytes16(
        1,
        little_endian,
    ) + bytes32(0, little_endian) + zeros((4 * ABS_CNT * 4) as nat)
}

fn push_zeros(out: &mut Vec<u8>, n: usize)
    ensures
        final(out)@ == old(out)@ + zeros(n as nat),
{
    let mut i: usize = 0;
    while i < n
        invariant
            i <= n,
            out@ == old(out)@ + zeros(i as nat),
        decreases n - i,
    {
        out.push(0u8);
        proof {
            assert(zeros((i + 1) as nat) =~= zeros(i as nat).push(0u8));
            assert(old(out)@ + zeros((i + 1) as nat) =~= (old(out)@ + zeros(i as nat)).push(0u8));
        }
        i = i + 1;
    }
}

fn push16(out: &mut Vec<u8>, v: u16, little_endian: bool)
    ensures
        final(out)@ == old(out)@ + bytes16(v, little_endian),
{
    let lo = (v % 256) as u8;
    let hi = (v / 256) as u8;
    if little_endian {
        out.push(lo);
        out.push(hi);
    } else {
        out.push(hi);
        out.push(lo);
    }
    assert(final(out)@ =~= old(out)@ + bytes16(v, little_endian));
}

fn push32(out: &mut Vec<u8>, v: u32, little_endian: bool)
    ensures
        final(out)@ == old(out)@ + bytes32(v, little_endian),
{
    let b0 = (v % 256) as u8;
    let b1 = (v / 256 % 256) as u8;
    let b2 = (v / 65536 % 256) as u8;
    let b3 = (v / 16777216) as u8;
    if little_endian {
        out.push(b0);
        out.push(b1);
        out.push(b2);
        out.push(b3);
    } else {
        out.push(b3);
        out.push(b2);
        out.push(b1);
        out.push(b0);
    }
    assert(final(out)@ =~= old(out)@ + bytes32(v, little_endian));
}

/// The bytes of one input event for a timestamp field of `time_len` bytes
/// (left zero: the kernel stamps the event) in the given byte order.
pub fn input_event_bytes(
    event_type: u16,
    code: u16,
    value: i32,
    time_len: usize,
    little_endian: bool,
) -> (r: Vec<u8>)
    ensures
        r@ == input_event(event_type, code, value, time_len as nat, little_endian),
{
    let mut out: Vec<u8> = Vec::new();
    push_zeros(&mut out, time_len);
    push16(&mut out, event_type, little_endian);
    push16(&mut out, code, little_endian);
    let bits: u32 = if value < 0 {
        (value as i64 + 0x1_0000_0000i64) as u32
    } else {
        value as u32
    };
    push32(&mut out, bits, little_endian);
    assert(out@ =~= input_event(event_type, code, value, time_len as nat, little_endian));
    out
}

/// The key event for one step of a chord.
pub fn key_event_bytes(code: u16, value: i32, time_len: usize, little_endian: bool) -> (r: Vec<u8>)
    ensures
        r@ == input_event(EV_KEY, code, value, time_len as nat, little_endian),
{
    input_event_bytes(EV_KEY, code, value, time_len, little_endian)
}

/// The event that delivers the events written before it.
pub fn sync_event_bytes(time_len: usize, little_endian: bool) -> (r: Vec<u8>)
    ensures
        r@ == input_event(EV_SYN, 0, 0, time_len as nat, little_endian),
{
    input_event_bytes(EV_SYN, 0, 0, time_len, little_endian)
}

/// The description written to create the virtual keyboard.
pub fn device_setup_bytes(little_endian: bool) -> (r: Vec<u8>)
    ensures
        r@ == device_setup(little_endian),
        r@.len() == 1116,
{
    let mut out: Vec<u8> = vec![
        71u8, 105, 103, 97, 84, 121, 112, 101, 32, 118, 105, 114, 116, 117, 97, 108, 32, 107, 101,
        121, 98, 111, 97, 114, 100,
    ];
    assert(out@ =~= device_name());
    let pad = NAME_LEN - out.len();
    push_zeros(&mut out, pad);
    push16(&mut out, BUS_USB, little_endian);
    push16(&mut out, VENDOR, little_endian);
    push16(&mut out, PRODUCT, little_endian);
    push16(&mut out, 1, little_endian);
    push32(&mut out, 0, little_endian);
    push_zeros(&mut out, 4 * ABS_CNT * 4);
    assert(out@ =~= device_setup(little_endian));
    out
}

} // verus!
