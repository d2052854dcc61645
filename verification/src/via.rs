//! The VIA protocol over raw HID — the same wire protocol the Keychron web
//! launcher uses. Command IDs from Keychron/qmk_firmware `quantum/via.h`.
//!
//! This module frames requests and reads replies; the bytes travel over the
//! device in the program around the library.

use vstd::prelude::*;
use vstd::string::StringExecFns;

use crate::text::{hex_digits, push_hex};

verus! {

/// Keychron's USB vendor id.
pub const VID: u16 = 0x3434;

/// The Keychron V4's USB product id.
pub const PID: u16 = 0x0340;

/// QMK raw-HID interface: usage page and usage (from qmk/tmk usb_descriptor).
pub const RAW_USAGE_PAGE: u16 = 0xFF60;

pub const RAW_USAGE: u16 = 0x61;

/// Length of a VIA report (both directions, without the report id).
pub const REPORT_LEN: usize = 32;

// VIA command IDs
pub const ID_GET_PROTOCOL_VERSION: u8 = 0x01;

pub const ID_GET_KEYBOARD_VALUE: u8 = 0x02;

pub const ID_DYNAMIC_KEYMAP_GET_KEYCODE: u8 = 0x04;

pub const ID_DYNAMIC_KEYMAP_SET_KEYCODE: u8 = 0x05;

pub const ID_DYNAMIC_KEYMAP_RESET: u8 = 0x06;

pub const ID_DYNAMIC_KEYMAP_GET_LAYER_COUNT: u8 = 0x11;

// Sub-commands of ID_GET_KEYBOARD_VALUE
pub const ID_UPTIME: u8 = 0x01;

pub const ID_FIRMWARE_VERSION: u8 = 0x04;

// ---- finding the interface --------------------------------------------------

/// What the enumeration tells about one HID interface.
#[derive(Clone, Copy, Debug)]
pub struct HidInterface {
    pub vendor_id: u16,
    pub product_id: u16,
    pub usage_page: u16,
    pub usage: u16,
}

/// The keyboard's raw-HID (VIA) interface.
pub open spec fn raw_hid(d: HidInterface) -> bool {
    d.vendor_id == VID && d.product_id == PID && d.usage_page == RAW_USAGE_PAGE && d.usage == RAW_USAGE
}

/// Whether `d` is the keyboard's raw-HID (VIA) interface.
pub fn is_raw_hid(d: &HidInterface) -> (b: bool)
    ensures
        b == raw_hid(*d),
{
    d.vendor_id == VID && d.product_id == PID && d.usage_page == RAW_USAGE_PAGE && d.usage == RAW_USAGE
}

/// The position of the first raw-HID interface of the keyboard in `devs`.
pub fn find_raw_hid(devs: &Vec<HidInterface>) -> (r: Option<usize>)
    ensures
        match r {
            Some(i) => i < devs@.len() && raw_hid(devs@[i as int]) && forall|j: int|
                0 <= j < i ==> !raw_hid(#[trigger] devs@[j]),
            None => forall|j: int| 0 <= j < devs@.len() ==> !raw_hid(#[trigger] devs@[j]),
        },
{
    let mut i: usize = 0;
    while i < devs.len()
        invariant
            0 <= i <= devs@.len(),
            forall|j: int| 0 <= j < i ==> !raw_hid(#[trigger] devs@[j]),
        decreases devs.len() - i,
    {
        if is_raw_hid(&devs[i]) {
            return Some(i);
        }
        i = i + 1;
    }
    None
}

// ---- requests -----------------------------------------------------------------

/// A VIA request.
#[derive(Clone, Copy, Debug)]
pub enum Command {
    ProtocolVersion,
    /// `ID_GET_KEYBOARD_VALUE` with a sub-command (`ID_UPTIME`, `ID_FIRMWARE_VERSION`, ...).
    KeyboardValue(u8),
    LayerCount,
    /// Reset ALL dynamic layers to the firmware's default keymap.
    ResetKeymap,
    GetKeycode { layer: u8, row: u8, col: u8 },
    SetKeycode { layer: u8, row: u8, col: u8, keycode: u16 },
}

/// The high byte of a big-endian `u16`.
pub open spec fn hi_byte(v: u16) -> u8 {
    (v / 256) as u8
}

/// The low byte of a big-endian `u16`.
pub open spec fn lo_byte(v: u16) -> u8 {
    (v % 256) as u8
}

/// The bytes of a request: the command id, then its arguments.
pub open spec fn command_spec(c: Command) -> Seq<u8> {
    match c {
        Command::ProtocolVersion => seq![ID_GET_PROTOCOL_VERSION],
        Command::KeyboardValue(sub) => seq![ID_GET_KEYBOARD_VALUE, sub],
        Command::LayerCount => seq![ID_DYNAMIC_KEYMAP_GET_LAYER_COUNT],
        Command::ResetKeymap => seq![ID_DYNAMIC_KEYMAP_RESET],
        Command::GetKeycode { layer, row, col } => seq![ID_DYNAMIC_KEYMAP_GET_KEYCODE, layer, row, col],
        Command::SetKeycode { layer, row, col, keycode } => seq![
            ID_DYNAMIC_KEYMAP_SET_KEYCODE,
            layer,
            row,
            col,
            hi_byte(keycode),
            lo_byte(keycode),
        ],
    }
}

/// The bytes of a request: the command id, then its arguments.
pub fn command_bytes(c: &Command) -> (b: Vec<u8>)
    ensures
        b@ == command_spec(*c),
{
    match *c {
        Command::ProtocolVersion => vec![ID_GET_PROTOCOL_VERSION],
        Command::KeyboardValue(sub) => vec![ID_GET_KEYBOARD_VALUE, sub],
        Command::LayerCount => vec![ID_DYNAMIC_KEYMAP_GET_LAYER_COUNT],
        Command::ResetKeymap => vec![ID_DYNAMIC_KEYMAP_RESET],
        Command::GetKeycode { layer, row, col } => vec![ID_DYNAMIC_KEYMAP_GET_KEYCODE, layer, row, col],
        Command::SetKeycode { layer, row, col, keycode } => {
            let hi = (keycode / 256) as u8;
            let lo = (keycode % 256) as u8;
            vec![ID_DYNAMIC_KEYMAP_SET_KEYCODE, layer, row, col, hi, lo]
        },
    }
}

/// The output report for a request: hidapi wants a leading report-id byte
/// (0x00 for unnumbered reports), then `REPORT_LEN` payload bytes, the
/// request first and zeros after it.
pub open spec fn report_spec(cmd: Seq<u8>) -> Seq<u8> {
    Seq::new(
        (1 + REPORT_LEN) as nat,
        |i: int|
            if 1 <= i < 1 + cmd.len() {
                cmd[i - 1]
            } else {
                0u8
            },
    )
}

/// The output report for a request (see `report_spec`).
pub fn report(cmd: &[u8]) -> (out: Vec<u8>)
    requires
        cmd@.len() <= REPORT_LEN,
    ensures
        out@ == report_spec(cmd@),
{
    let mut out: Vec<u8> = Vec::new();
    out.push(0);
    let mut i: usize = 0;
    while i < REPORT_LEN
        invariant
            0 <= i <= REPORT_LEN,
            cmd@.len() <= REPORT_LEN,
            out@ =~= report_spec(cmd@).take(1 + i),
        decreases REPORT_LEN - i,
    {
        if i < cmd.len() {
            out.push(cmd[i]);
        } else {
            out.push(0);
        }
        i = i + 1;
    }
    assert(report_spec(cmd@).take(1 + REPORT_LEN) =~= report_spec(cmd@));
    out
}

// ---- replies ------------------------------------------------------------------

/// The big-endian `u16` made of `hi` and `lo`.
pub open spec fn be16(hi: u8, lo: u8) -> u16 {
    (hi * 256 + lo) as u16
}

/// The big-endian `u32` made of four bytes.
pub open spec fn be32(b0: u8, b1: u8, b2: u8, b3: u8) -> u32 {
    (b0 * 0x100_0000 + b1 * 0x1_0000 + b2 * 0x100 + b3) as u32
}

/// Reply to `ProtocolVersion`: the version, big-endian at bytes 1..3.
pub fn protocol_version_of(reply: &[u8; REPORT_LEN]) -> (v: u16)
    ensures
        v == be16(reply@[1], reply@[2]),
{
    (reply[1] as u16) * 256 + (reply[2] as u16)
}

/// Reply to `LayerCount`: the number of dynamic layers, at byte 1.
pub fn layer_count_of(reply: &[u8; REPORT_LEN]) -> (n: u8)
    ensures
        n == reply@[1],
{
    reply[1]
}

/// Reply to `GetKeycode`: it echoes `[id, layer, row, col, kc_hi, kc_lo]`.
pub fn keycode_of(reply: &[u8; REPORT_LEN]) -> (kc: u16)
    ensures
        kc == be16(reply@[4], reply@[5]),
{
    (reply[4] as u16) * 256 + (reply[5] as u16)
}

/// Reply to `KeyboardValue` (firmware version, uptime in ms): a big-endian
/// `u32` at bytes 2..6.
pub fn keyboard_value_of(reply: &[u8; REPORT_LEN]) -> (v: u32)
    ensures
        v == be32(reply@[2], reply@[3], reply@[4], reply@[5]),
{
    (reply[2] as u32) * 0x100_0000 + (reply[3] as u32) * 0x1_0000 + (reply[4] as u32) * 0x100 + (
    reply[5] as u32)
}

// ---- transfer outcome -------------------------------------------------------

/// How one request/reply exchange failed.
#[derive(Debug)]
pub enum XferError {
    /// Writing the report failed; the device's error text.
    Write(String),
    /// No reply came in time to the command with this id.
    Timeout(u8),
    /// Reading the reply failed; the device's error text.
    Read(String),
}

/// What a read of the reply to the command `cmd_id` means: a read of no bytes
/// is a timeout, a read of some bytes is the reply, a failed read is an error.
pub fn read_outcome(cmd_id: u8, read: Result<usize, String>) -> (r: Result<(), XferError>)
    ensures
        match read {
            Ok(0) => r == Err::<(), XferError>(XferError::Timeout(cmd_id)),
            Ok(_) => r is Ok,
            Err(e) => r == Err::<(), XferError>(XferError::Read(e)),
        },
{
    match read {
        Ok(0) => Err(XferError::Timeout(cmd_id)),
        Ok(_) => Ok(()),
        Err(e) => Err(XferError::Read(e)),
    }
}

/// The text of an `XferError`, as the launcher shows it.
pub open spec fn xfer_message(e: XferError) -> Seq<char> {
    match e {
        XferError::Write(t) => "write: "@ + t@,
        XferError::Timeout(id) => "timeout on cmd 0x"@ + hex_digits(id as nat, 2, false),
        XferError::Read(t) => "read: "@ + t@,
    }
}

impl XferError {
    /// The text of the error, as the launcher shows it.
    pub fn message(&self) -> (s: String)
        ensures
            s@ == xfer_message(*self),
    {
        match self {
            XferError::Write(t) => {
                let mut s = String::from_str("write: ");
                s.append(t.as_str());
                s
            },
            XferError::Timeout(id) => {
                let mut s = String::from_str("timeout on cmd 0x");
                push_hex(&mut s, *id as u64, 2, false);
                s
            },
            XferError::Read(t) => {
                let mut s = String::from_str("read: ");
                s.append(t.as_str());
                s
            },
        }
    }
}


// ---- laws -------------------------------------------------------------------

/// Law: different requests are framed as different bytes, so the firmware can
/// tell every request apart.
pub proof fn command_bytes_distinct(a: Command, b: Command)
    requires
        command_spec(a) == command_spec(b),
    ensures
        a == b,
{
    let sa = command_spec(a);
    let sb = command_spec(b);
    assert(sa.len() == sb.len());
    assert(sa[0] == sb[0]);
    match a {
        Command::KeyboardValue(_) => {
            assert(sa[1] == sb[1]);
        },
        Command::GetKeycode { .. } => {
            assert(sa[1] == sb[1] && sa[2] == sb[2] && sa[3] == sb[3]);
        },
        Command::SetKeycode { keycode, .. } => {
            assert(sa[1] == sb[1] && sa[2] == sb[2] && sa[3] == sb[3] && sa[4] == sb[4] && sa[5]
                == sb[5]);
            if let Command::SetKeycode { keycode: k2, .. } = b {
                lemma_be16_bytes(keycode);
                lemma_be16_bytes(k2);
            }
        },
        _ => {},
    }
}

proof fn lemma_be16_bytes(v: u16)
    ensures
        be16(hi_byte(v), lo_byte(v)) == v,
{
    assert(v == (v / 256) * 256 + v % 256);
}

/// Law: a keycode written with `SetKeycode` reads back unchanged from a
/// `GetKeycode` reply that echoes the stored value in the same place
/// (`[id, layer, row, col, kc_hi, kc_lo]`).
pub proof fn keycode_write_read_back(layer: u8, row: u8, col: u8, keycode: u16, reply: Seq<u8>)
    requires
        reply.len() == REPORT_LEN,
        reply[4] == command_spec(Command::SetKeycode { layer, row, col, keycode })[4],
        reply[5] == command_spec(Command::SetKeycode { layer, row, col, keycode })[5],
    ensures
        be16(reply[4], reply[5]) == keycode,
{
    lemma_be16_bytes(keycode);
}

/// Law: a request frame carries the request unchanged after the report id,
/// and the request can be read back from it.
pub proof fn report_carries_command(c: Command)
    ensures
        report_spec(command_spec(c)).subrange(1, 1 + command_spec(c).len() as int) == command_spec(c),
        report_spec(command_spec(c))[0] == 0,
{
    let cmd = command_spec(c);
    assert(report_spec(cmd).subrange(1, 1 + cmd.len() as int) =~= cmd);
}

/// Law: a key's address sits in the same place in every keymap request: byte
/// 1 is the layer, byte 2 the row, byte 3 the column. A write is addressed to
/// exactly the key a read of the same layer, row and column asks about, and
/// carries the keycode big-endian in bytes 4 and 5.
pub proof fn keycode_requests_address_the_key(layer: u8, row: u8, col: u8, keycode: u16)
    ensures
        command_spec(Command::GetKeycode { layer, row, col }).len() == 4,
        command_spec(Command::GetKeycode { layer, row, col })[0] == 0x04,
        command_spec(Command::GetKeycode { layer, row, col })[1] == layer,
        command_spec(Command::GetKeycode { layer, row, col })[2] == row,
        command_spec(Command::GetKeycode { layer, row, col })[3] == col,
        command_spec(Command::SetKeycode { layer, row, col, keycode }).len() == 6,
        command_spec(Command::SetKeycode { layer, row, col, keycode })[0] == 0x05,
        command_spec(Command::SetKeycode { layer, row, col, keycode })[1] == layer,
        command_spec(Command::SetKeycode { layer, row, col, keycode })[2] == row,
        command_spec(Command::SetKeycode { layer, row, col, keycode })[3] == col,
        command_spec(Command::SetKeycode { layer, row, col, keycode })[4] * 256
            + command_spec(Command::SetKeycode { layer, row, col, keycode })[5] == keycode,
        command_spec(Command::SetKeycode { layer, row, col, keycode }).subrange(1, 4)
            == command_spec(Command::GetKeycode { layer, row, col }).subrange(1, 4),
{
    let g = command_spec(Command::GetKeycode { layer, row, col });
    let s = command_spec(Command::SetKeycode { layer, row, col, keycode });
    assert(s.subrange(1, 4) =~= g.subrange(1, 4));
    assert(keycode == (keycode / 256) * 256 + keycode % 256);
}

/// Law: an interface is the VIA interface exactly when it is Keychron's
/// (vendor 0x3434), the V4's (product 0x0340), and QMK's raw-HID usage page
/// 0xFF60 with usage 0x61; any other device or interface is never chosen.
pub proof fn raw_hid_is_the_v4_vendor_interface(d: HidInterface)
    ensures
        raw_hid(d) <==> (d.vendor_id == 0x3434 && d.product_id == 0x0340 && d.usage_page == 0xFF60
            && d.usage == 0x61),
{
}

/// Law: the interface `find_raw_hid` picks is the V4's VIA interface, and
/// every interface before it is not.
pub proof fn chosen_interface_is_the_v4s(devs: Seq<HidInterface>, i: int)
    requires
        0 <= i < devs.len(),
        raw_hid(devs[i]),
        forall|j: int| 0 <= j < i ==> !raw_hid(#[trigger] devs[j]),
    ensures
        devs[i].vendor_id == 0x3434,
        devs[i].product_id == 0x0340,
        devs[i].usage_page == 0xFF60,
        devs[i].usage == 0x61,
        forall|j: int|
            0 <= j < i ==> !(#[trigger] devs[j].vendor_id == 0x3434 && devs[j].product_id == 0x0340
                && devs[j].usage_page == 0xFF60 && devs[j].usage == 0x61),
{
}

} // verus!
