use vstd::prelude::*;

use crate::state::PhysicalChannel;

verus! {

// ── Hardware byte constants ───────────────────────────────────────────────────
pub const HW_RED_ON: u8 = 0x11;
pub const HW_RED_OFF: u8 = 0x21;
pub const HW_RED_BLINK: u8 = 0x41;

// The physical middle segment is orange, not yellow.
pub const HW_ORANGE_ON: u8 = 0x12;
pub const HW_ORANGE_OFF: u8 = 0x22;
pub const HW_ORANGE_BLINK: u8 = 0x42;

pub const HW_GREEN_ON: u8 = 0x14;
pub const HW_GREEN_OFF: u8 = 0x24;
pub const HW_GREEN_BLINK: u8 = 0x44;

pub const HW_BUZZER_ON: u8 = 0x18;
pub const HW_BUZZER_OFF: u8 = 0x28;
pub const HW_BUZZER_BLINK: u8 = 0x48;

/// CH340 USB VID/PID used by the Adafruit tower light.
pub const TOWER_VID: u16 = 0x1a86;
pub const TOWER_PID: u16 = 0x7523;

/// Serial line settings of the device.
pub const SERIAL_BAUD: u32 = 9600;
pub const SERIAL_TIMEOUT_MS: u64 = 200;

/// The udev symlink tried when no port is given and none is found by VID/PID.
pub const FALLBACK_PORT: &'static str = "/dev/tower-light";

/// The byte that turns a channel on.
pub open spec fn on_byte(ch: PhysicalChannel) -> u8 {
    match ch {
        PhysicalChannel::Red => HW_RED_ON,
        PhysicalChannel::Orange => HW_ORANGE_ON,
        PhysicalChannel::Green => HW_GREEN_ON,
        PhysicalChannel::Buzzer => HW_BUZZER_ON,
    }
}

/// The byte that turns a channel off.
pub open spec fn off_byte(ch: PhysicalChannel) -> u8 {
    match ch {
        PhysicalChannel::Red => HW_RED_OFF,
        PhysicalChannel::Orange => HW_ORANGE_OFF,
        PhysicalChannel::Green => HW_GREEN_OFF,
        PhysicalChannel::Buzzer => HW_BUZZER_OFF,
    }
}

/// The byte that starts a channel's native hardware blink.
pub open spec fn blink_byte(ch: PhysicalChannel) -> u8 {
    match ch {
        PhysicalChannel::Red => HW_RED_BLINK,
        PhysicalChannel::Orange => HW_ORANGE_BLINK,
        PhysicalChannel::Green => HW_GREEN_BLINK,
        PhysicalChannel::Buzzer => HW_BUZZER_BLINK,
    }
}

/// Each command byte names exactly one channel and one action: no two of the
/// twelve bytes coincide.
pub proof fn lemma_command_bytes_distinct(a: PhysicalChannel, b: PhysicalChannel)
    ensures
        on_byte(a) == on_byte(b) ==> a == b,
        off_byte(a) == off_byte(b) ==> a == b,
        blink_byte(a) == blink_byte(b) ==> a == b,
        on_byte(a) != off_byte(b),
        on_byte(a) != blink_byte(b),
        off_byte(a) != blink_byte(b),
{
}

impl PhysicalChannel {
    /// The channel's (on, off, blink) command bytes.
    pub fn hw_commands(&self) -> (r: (u8, u8, u8))
        ensures
            r == (on_byte(*self), off_byte(*self), blink_byte(*self)),
    {
        match self {
            PhysicalChannel::Red => (HW_RED_ON, HW_RED_OFF, HW_RED_BLINK),
            PhysicalChannel::Orange => (HW_ORANGE_ON, HW_ORANGE_OFF, HW_ORANGE_BLINK),
            PhysicalChannel::Green => (HW_GREEN_ON, HW_GREEN_OFF, HW_GREEN_BLINK),
            PhysicalChannel::Buzzer => (HW_BUZZER_ON, HW_BUZZER_OFF, HW_BUZZER_BLINK),
        }
    }
}

/// The bytes that turn every channel off, in hardware order.
pub open spec fn all_off_bytes() -> Seq<u8> {
    seq![HW_RED_OFF, HW_ORANGE_OFF, HW_GREEN_OFF, HW_BUZZER_OFF]
}

/// The all-off command sequence.
pub fn all_off_commands() -> (r: Vec<u8>)
    ensures
        r@ == all_off_bytes(),
{
    let r = vec![HW_RED_OFF, HW_ORANGE_OFF, HW_GREEN_OFF, HW_BUZZER_OFF];
    assert(r@ =~= all_off_bytes());
    r
}

// ── USB enumeration ───────────────────────────────────────────────────────────

/// What the port scan tells of one serial port: its path and, for a USB
/// port, its vendor and product id.
#[derive(Debug, Clone, PartialEq, Eq)]
pub struct PortInfo {
    pub name: String,
    pub usb_ids: Option<(u16, u16)>,
}

pub open spec fn port_matches(p: PortInfo, vid: u16, pid: u16) -> bool {
    p.usb_ids == Some((vid, pid))
}

/// The port path of the first port in `ports` that is a USB port with the
/// given VID/PID, or `None` when there is none.
pub fn select_device_port(ports: &Vec<PortInfo>, vid: u16, pid: u16) -> (r: Option<String>)
    ensures
        r is None <==> (forall|i: int| 0 <= i < ports@.len() ==> !port_matches(#[trigger] ports@[i], vid, pid)),
        r matches Some(name) ==> exists|i: int|
            0 <= i < ports@.len()
            && port_matches(#[trigger] ports@[i], vid, pid)
            && (forall|j: int| 0 <= j < i ==> !port_matches(#[trigger] ports@[j], vid, pid))
            && name@ == ports@[i].name@,
{
    let n = ports.len();
    for k in 0..n
        invariant
            n == ports@.len(),
            forall|j: int| 0 <= j < k ==> !port_matches(#[trigger] ports@[j], vid, pid),
    {
        let p = &ports[k];
        match p.usb_ids {
            Some((v, d)) => {
                if v == vid && d == pid {
                    let name = p.name.clone();
                    assert(port_matches(ports@[k as int], vid, pid));
                    return Some(name);
                }
            },
            None => {},
        }
    }
    None
}

/// Port resolution order: the path given on the command line, else the path
/// found by VID/PID, else the udev symlink.
pub open spec fn resolved_port(port_override: Option<String>, discovered: Option<String>) -> Seq<char> {
    match port_override {
        Some(p) => p@,
        None => match discovered {
            Some(d) => d@,
            None => FALLBACK_PORT@,
        },
    }
}

/// Choose the port to open (see `resolved_port`).
pub fn resolve_port(port_override: &Option<String>, discovered: &Option<String>) -> (r: String)
    ensures
        r@ == resolved_port(*port_override, *discovered),
{
    match port_override {
        Some(p) => p.clone(),
        None => match discovered {
            Some(d) => d.clone(),
            None => FALLBACK_PORT.to_owned(),
        },
    }
}

} // verus!
