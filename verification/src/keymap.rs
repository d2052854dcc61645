//! The launcher's copy of one layer of the keyboard's keymap, and reading a
//! layer from the keyboard key by key.
//!
//! The keymap maps a key's switch-matrix position (row, col) to its keycode.
//! A layer read asks the keyboard for each key's keycode in turn; the program
//! around the library carries each request to the device and hands the reply
//! back. Replies that fail are left out of the keymap; the launcher either
//! stops at the first failure with a status text, or skips it and goes on.

use std::collections::HashMap;
use vstd::prelude::*;

use crate::text::{decimal, push_decimal};
use crate::via::Command;
use vstd::string::StringExecFns;

verus! {

/// The key under which a matrix position is stored.
pub open spec fn position_key(row: u8, col: u8) -> u16 {
    (row * 256 + col) as u16
}

/// Keycodes by matrix position (row, col), held in a `HashMap` keyed by
/// `position_key`.
pub struct Keymap {
    map: HashMap<u16, u16>,
}

impl View for Keymap {
    type V = Map<(u8, u8), u16>;

    closed spec fn view(&self) -> Map<(u8, u8), u16> {
        Map::new(
            |p: (u8, u8)| self.map@.contains_key(position_key(p.0, p.1)),
            |p: (u8, u8)| self.map@[position_key(p.0, p.1)],
        )
    }
}

impl Keymap {
    /// An empty keymap.
    pub fn new() -> (k: Keymap)
        ensures
            k@ == Map::<(u8, u8), u16>::empty(),
    {
        let k = Keymap { map: HashMap::new() };
        assert(k@ =~= Map::<(u8, u8), u16>::empty());
        k
    }

    /// Records `kc` for the key at (row, col), replacing what was there.
    pub fn insert(&mut self, row: u8, col: u8, kc: u16)
        ensures
            final(self)@ == old(self)@.insert((row, col), kc),
    {
        broadcast use vstd::std_specs::hash::group_hash_axioms;

        let key = (row as u16) * 256 + (col as u16);
        self.map.insert(key, kc);
        assert(final(self)@ =~= old(self)@.insert((row, col), kc));
    }

    /// The keycode recorded for the key at (row, col), if any.
    pub fn get(&self, row: u8, col: u8) -> (r: Option<u16>)
        ensures
            r == (if self@.dom().contains((row, col)) {
                Some(self@[(row, col)])
            } else {
                None::<u16>
            }),
    {
        broadcast use vstd::std_specs::hash::group_hash_axioms;

        let key = (row as u16) * 256 + (col as u16);
        match self.map.get(&key) {
            Some(kc) => Some(*kc),
            None => None,
        }
    }

    /// The keycode shown for the key at (row, col): the recorded one, or KC_NO (0).
    pub fn keycode_at(&self, row: u8, col: u8) -> (kc: u16)
        ensures
            kc == (if self@.dom().contains((row, col)) {
                self@[(row, col)]
            } else {
                0u16
            }),
    {
        match self.get(row, col) {
            Some(kc) => kc,
            None => 0,
        }
    }
}

/// The keymap after the replies to the first `replies.len()` requests: a
/// successful reply records its keycode at its key's position, a failed one
/// (`None`) records nothing.
pub open spec fn replies_map(positions: Seq<(u8, u8)>, replies: Seq<Option<u16>>) -> Map<(u8, u8), u16>
    decreases replies.len(),
{
    if replies.len() == 0 {
        Map::empty()
    } else {
        let prev = replies_map(positions, replies.drop_last());
        match replies.last() {
            Some(kc) => prev.insert(positions[replies.len() - 1], kc),
            None => prev,
        }
    }
}

/// The status text for a failed read of the key at (row, col).
pub open spec fn read_failed_text(row: u8, col: u8, err: Seq<char>) -> Seq<char> {
    "read "@ + decimal(row as nat) + ","@ + decimal(col as nat) + " failed: "@ + err
}

/// The text of an optional status.
pub open spec fn status_view(s: Option<String>) -> Option<Seq<char>> {
    match s {
        Some(t) => Some(t@),
        None => None,
    }
}

/// A read of one layer, key by key.
pub struct LayerRead {
    /// The layer being read.
    pub layer: u8,
    /// The keys' matrix positions, in the order they are asked for.
    pub positions: Vec<(u8, u8)>,
    /// Whether a failed reply ends the read (with a status text) or is skipped.
    pub stop_on_error: bool,
    /// How many replies have been handed in.
    pub answered: usize,
    /// Whether a failed reply ended the read.
    pub stopped: bool,
    /// The keymap read so far.
    pub keymap: Keymap,
    /// The status text left by a failed reply that ended the read.
    pub status: Option<String>,
    /// The replies so far: the keycode, or `None` for a failed reply.
    pub replies: Ghost<Seq<Option<u16>>>,
}

impl LayerRead {
    /// The read's bookkeeping agrees with its keymap.
    pub open spec fn wf(&self) -> bool {
        &&& self.replies@.len() == self.answered <= self.positions@.len()
        &&& self.keymap@ == replies_map(self.positions@, self.replies@)
        &&& self.stopped ==> self.stop_on_error
    }

    /// Starts reading `layer`, asking for the keys at `positions` in order;
    /// the keymap starts empty.
    pub fn start(layer: u8, positions: Vec<(u8, u8)>, stop_on_error: bool) -> (r: LayerRead)
        ensures
            r.wf(),
            r.layer == layer,
            r.positions@ == positions@,
            r.stop_on_error == stop_on_error,
            r.answered == 0,
            !r.stopped,
            r.status is None,
            r.keymap@ == Map::<(u8, u8), u16>::empty(),
    {
        LayerRead {
            layer,
            positions,
            stop_on_error,
            answered: 0,
            stopped: false,
            keymap: Keymap::new(),
            status: None,
            replies: Ghost(Seq::empty()),
        }
    }

    /// The next request to send, or `None` when the read is over.
    pub fn request(&self) -> (r: Option<Command>)
        requires
            self.wf(),
        ensures
            r == (if !self.stopped && self.answered < self.positions@.len() {
                Some(
                    Command::GetKeycode {
                        layer: self.layer,
                        row: self.positions@[self.answered as int].0,
                        col: self.positions@[self.answered as int].1,
                    },
                )
            } else {
                None
            }),
    {
        if !self.stopped && self.answered < self.positions.len() {
            let (row, col) = self.positions[self.answered];
            Some(Command::GetKeycode { layer: self.layer, row, col })
        } else {
            None
        }
    }

    /// Hands in the reply to the request `request` gave: the keycode, or the
    /// device's error text.
    pub fn on_reply(&mut self, reply: Result<u16, String>)
        requires
            old(self).wf(),
            !old(self).stopped,
            old(self).answered < old(self).positions@.len(),
        ensures
            final(self).wf(),
            final(self).layer == old(self).layer,
            final(self).positions@ == old(self).positions@,
            final(self).stop_on_error == old(self).stop_on_error,
            final(self).answered == old(self).answered + 1,
            ({
                let (row, col) = old(self).positions@[old(self).answered as int];
                match reply {
                    Ok(kc) => {
                        &&& final(self).replies@ == old(self).replies@.push(Some(kc))
                        &&& final(self).keymap@ == old(self).keymap@.insert((row, col), kc)
                        &&& !final(self).stopped
                        &&& status_view(final(self).status) == status_view(old(self).status)
                    },
                    Err(e) => {
                        &&& final(self).replies@ == old(self).replies@.push(None)
                        &&& final(self).keymap@ == old(self).keymap@
                        &&& final(self).stopped == old(self).stop_on_error
                        &&& status_view(final(self).status) == (if old(self).stop_on_error {
                            Some(read_failed_text(row, col, e@))
                        } else {
                            status_view(old(self).status)
                        })
                    },
                }
            }),
    {
        let (row, col) = self.positions[self.answered];
        let n = self.positions.len();
        assert(self.answered < n);
        let next = self.answered + 1;
        let ghost old_replies = self.replies@;
        match reply {
            Ok(kc) => {
                self.keymap.insert(row, col, kc);
                self.replies = Ghost(old_replies.push(Some(kc)));
            },
            Err(e) => {
                self.replies = Ghost(old_replies.push(None));
                if self.stop_on_error {
                    let mut s = String::from_str("read ");
                    push_decimal(&mut s, row as u64);
                    s.append(",");
                    push_decimal(&mut s, col as u64);
                    s.append(" failed: ");
                    s.append(e.as_str());
                    self.status = Some(s);
                    self.stopped = true;
                }
            },
        }
        self.answered = next;
        assert(self.replies@.drop_last() =~= old_replies);
    }

    /// The keymap read, and the status text of a failure that ended the read.
    pub fn finish(self) -> (r: (Keymap, Option<String>))
        requires
            self.wf(),
        ensures
            r.0@ == replies_map(self.positions@, self.replies@),
            status_view(r.1) == status_view(self.status),
    {
        (self.keymap, self.status)
    }
}

/// Law: when the keys' positions are distinct, a layer read's keymap holds,
/// for each key asked so far, exactly its reply: the keycode when the reply
/// succeeded, and nothing when it failed.
pub proof fn layer_read_shows_replies(positions: Seq<(u8, u8)>, replies: Seq<Option<u16>>, i: int)
    requires
        replies.len() <= positions.len(),
        forall|a: int, b: int| 0 <= a < b < positions.len() ==> positions[a] != positions[b],
        0 <= i < replies.len(),
    ensures
        replies_map(positions, replies).dom().contains(positions[i]) == replies[i] is Some,
        replies[i] is Some ==> replies_map(positions, replies)[positions[i]] == replies[i]->0,
    decreases replies.len(),
{
    let prev = replies.drop_last();
    if i < replies.len() - 1 {
        layer_read_shows_replies(positions, prev, i);
        assert(positions[replies.len() - 1] != positions[i]);
        assert(prev[i] == replies[i]);
    } else {
        lemma_unasked_absent(positions, prev, positions[i]);
    }
}

/// Keys not yet asked for are not in the keymap.
proof fn lemma_unasked_absent(positions: Seq<(u8, u8)>, replies: Seq<Option<u16>>, p: (u8, u8))
    requires
        replies.len() <= positions.len(),
        forall|k: int| 0 <= k < replies.len() ==> positions[k] != p,
    ensures
        !replies_map(positions, replies).dom().contains(p),
    decreases replies.len(),
{
    if replies.len() > 0 {
        lemma_unasked_absent(positions, replies.drop_last(), p);
    }
}

/// Law: a keycode recorded for a key is what the keymap then gives for it, and
/// the other keys keep theirs.
pub proof fn keymap_insert_then_lookup(m: Map<(u8, u8), u16>, row: u8, col: u8, kc: u16, other: (u8, u8))
    requires
        other != (row, col),
    ensures
        m.insert((row, col), kc).dom().contains((row, col)),
        m.insert((row, col), kc)[(row, col)] == kc,
        m.insert((row, col), kc).dom().contains(other) == m.dom().contains(other),
        m.dom().contains(other) ==> m.insert((row, col), kc)[other] == m[other],
{
}

} // verus!
