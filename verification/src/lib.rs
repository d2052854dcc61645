//! stubby — the core of a native Keychron launcher.
//!
//! `via`      — the VIA protocol over raw HID: requests, report frames, replies.
//! `kle`      — a VIA definition's KLE layout as positioned keys.
//! `keycodes` — QMK/HID keycodes to human labels, and the assignment palette.
//! `keymap`   — a layer's keymap, and reading a layer key by key.
//! `session`  — assigning a keycode, resetting, and the connection status.
//! `theme`    — the launcher's colour themes.
//! `text`     — small string builders shared by the modules.

pub mod keycodes;
pub mod keymap;
pub mod kle;
pub mod session;
pub mod text;
pub mod theme;
pub mod via;
