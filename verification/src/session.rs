//! The launcher's decisions around the device: assigning a keycode to the
//! selected key, resetting all layers, and the status shown after connecting.
//! The program around the library sends the requests and hands the replies in.

use vstd::prelude::*;
use vstd::string::StringExecFns;

use crate::keycodes::{key_label, name_for};
use crate::keymap::Keymap;
use crate::text::{decimal, push_decimal};
use crate::via::Command;

verus! {

/// What picking a keycode asks for: the write to send for the selected key,
/// or the status text when there is none to send.
pub fn assign_request(selected: Option<(u8, u8)>, connected: bool, layer: u8, kc: u16) -> (r: Result<
    Command,
    String,
>)
    ensures
        match (selected, r) {
            (None, Err(t)) => t@ == "select a key first"@,
            (Some((row, col)), Ok(c)) => connected && c == Command::SetKeycode {
                layer,
                row,
                col,
                keycode: kc,
            },
            (Some(_), Err(t)) => !connected && t@ == "not connected"@,
            _ => false,
        },
{
    let (row, col) = match selected {
        Some(p) => p,
        None => return Err(String::from_str("select a key first")),
    };
    if !connected {
        return Err(String::from_str("not connected"));
    }
    Ok(Command::SetKeycode { layer, row, col, keycode: kc })
}

/// The status text after setting the key at (row, col) to `kc`.
pub open spec fn set_text(row: u8, col: u8, kc: u16) -> Seq<char> {
    "set ["@ + decimal(row as nat) + ","@ + decimal(col as nat) + "] = "@ + key_label(kc)
}

/// Hands in the device's answer to the write `assign_request` asked for:
/// on success the keymap shows the new keycode; returns the status text.
pub fn on_assign_reply(keymap: &mut Keymap, row: u8, col: u8, kc: u16, reply: Result<(), String>) -> (status: String)
    ensures
        match reply {
            Ok(()) => final(keymap)@ == old(keymap)@.insert((row, col), kc) && status@ == set_text(
                row,
                col,
                kc,
            ),
            Err(e) => final(keymap)@ == old(keymap)@ && status@ == "write failed: "@ + e@,
        },
{
    match reply {
        Ok(()) => {
            keymap.insert(row, col, kc);
            let mut s = String::from_str("set [");
            push_decimal(&mut s, row as u64);
            s.append(",");
            push_decimal(&mut s, col as u64);
            s.append("] = ");
            let label = name_for(kc);
            s.append(label.as_str());
            s
        },
        Err(e) => {
            let mut s = String::from_str("write failed: ");
            s.append(e.as_str());
            s
        },
    }
}

/// Hands in the device's answer to a reset of all layers: the status text,
/// and whether the key selection is cleared. The layer is read again either way.
pub fn on_reset_reply(reply: Result<(), String>) -> (r: (String, bool))
    ensures
        match reply {
            Ok(()) => r.0@ == "reset all layers to default"@ && r.1,
            Err(e) => r.0@ == "reset failed: "@ + e@ && !r.1,
        },
{
    match reply {
        Ok(()) => (String::from_str("reset all layers to default"), true),
        Err(e) => {
            let mut s = String::from_str("reset failed: ");
            s.append(e.as_str());
            (s, false)
        },
    }
}

/// After connecting: the number of layers (1 when it cannot be read) and the
/// status text naming the protocol version (0 when it cannot be read).
pub fn connected_status(layer_count: Result<u8, String>, protocol: Result<u16, String>) -> (r: (u8, String))
    ensures
        r.0 == (match layer_count {
            Ok(n) => n,
            Err(_) => 1u8,
        }),
        r.1@ == "VIA proto "@ + decimal(
            match protocol {
                Ok(p) => p as nat,
                Err(_) => 0nat,
            },
        ),
{
    let n = match layer_count {
        Ok(n) => n,
        Err(_) => 1,
    };
    let p: u16 = match protocol {
        Ok(p) => p,
        Err(_) => 0,
    };
    let mut s = String::from_str("VIA proto ");
    push_decimal(&mut s, p as u64);
    (n, s)
}

/// When the keyboard could not be opened: one layer, and the status text
/// carrying the reason.
pub fn offline_status(err: &str) -> (r: (u8, String))
    ensures
        r.0 == 1,
        r.1@ == "OFFLINE — "@ + err@,
{
    let mut s = String::from_str("OFFLINE — ");
    s.append(err);
    (1, s)
}

} // verus!
