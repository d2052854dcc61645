//! QMK/HID keycode <-> label, over the basic HID range (0x00–0xE7) that the
//! standard VIA keymap uses. Named are KC_NO (0x00, shown empty),
//! KC_TRANSPARENT (0x01), 0x04–0x31, 0x33–0x52 and 0xE0–0xE7. Every other code
//! (0x02, 0x03, 0x32, 0x53–0xDF, 0xE8 and up: layer taps, macros, RGB, etc.)
//! falls back to hex — set/get still work by raw value, they are just not named.

use vstd::prelude::*;

use crate::text::{hex_digits, push_char, push_hex};

verus! {

/// The single-letter label for the byte `b` in `'A'..='Z'`.
pub open spec fn letter_label(b: u8) -> Seq<char> {
    match b {
        0x41 => "A"@,
        0x42 => "B"@,
        0x43 => "C"@,
        0x44 => "D"@,
        0x45 => "E"@,
        0x46 => "F"@,
        0x47 => "G"@,
        0x48 => "H"@,
        0x49 => "I"@,
        0x4A => "J"@,
        0x4B => "K"@,
        0x4C => "L"@,
        0x4D => "M"@,
        0x4E => "N"@,
        0x4F => "O"@,
        0x50 => "P"@,
        0x51 => "Q"@,
        0x52 => "R"@,
        0x53 => "S"@,
        0x54 => "T"@,
        0x55 => "U"@,
        0x56 => "V"@,
        0x57 => "W"@,
        0x58 => "X"@,
        0x59 => "Y"@,
        _ => "Z"@,
    }
}

/// The name of a basic HID usage, where it has one.
pub open spec fn basic_label(kc: u8) -> Option<Seq<char>> {
    if 0x04 <= kc <= 0x1D {
        Some(letter_label((0x41 + (kc - 0x04)) as u8))
    } else {
        match kc {
            0x1E => Some("1"@),
            0x1F => Some("2"@),
            0x20 => Some("3"@),
            0x21 => Some("4"@),
            0x22 => Some("5"@),
            0x23 => Some("6"@),
            0x24 => Some("7"@),
            0x25 => Some("8"@),
            0x26 => Some("9"@),
            0x27 => Some("0"@),
            0x28 => Some("Enter"@),
            0x29 => Some("Esc"@),
            0x2A => Some("Bksp"@),
            0x2B => Some("Tab"@),
            0x2C => Some("Space"@),
            0x2D => Some("-"@),
            0x2E => Some("="@),
            0x2F => Some("["@),
            0x30 => Some("]"@),
            0x31 => Some("\\"@),
            0x33 => Some(";"@),
            0x34 => Some("'"@),
            0x35 => Some("`"@),
            0x36 => Some(","@),
            0x37 => Some("."@),
            0x38 => Some("/"@),
            0x39 => Some("Caps"@),
            0x3A => Some("F1"@),
            0x3B => Some("F2"@),
            0x3C => Some("F3"@),
            0x3D => Some("F4"@),
            0x3E => Some("F5"@),
            0x3F => Some("F6"@),
            0x40 => Some("F7"@),
            0x41 => Some("F8"@),
            0x42 => Some("F9"@),
            0x43 => Some("F10"@),
            0x44 => Some("F11"@),
            0x45 => Some("F12"@),
            0x46 => Some("PrtSc"@),
            0x47 => Some("ScrLk"@),
            0x48 => Some("Pause"@),
            0x49 => Some("Ins"@),
            0x4A => Some("Home"@),
            0x4B => Some("PgUp"@),
            0x4C => Some("Del"@),
            0x4D => Some("End"@),
            0x4E => Some("PgDn"@),
            0x4F => Some("→"@),
            0x50 => Some("←"@),
            0x51 => Some("↓"@),
            0x52 => Some("↑"@),
            0xE0 => Some("LCtrl"@),
            0xE1 => Some("LShft"@),
            0xE2 => Some("LAlt"@),
            0xE3 => Some("LGui"@),
            0xE4 => Some("RCtrl"@),
            0xE5 => Some("RShft"@),
            0xE6 => Some("RAlt"@),
            0xE7 => Some("RGui"@),
            _ => None,
        }
    }
}

/// The hexadecimal fallback label: `0x` and four uppercase digits.
pub open spec fn hex_label(kc: u16) -> Seq<char> {
    seq!['0', 'x'] + hex_digits(kc as nat, 4, true)
}

/// The label shown for a keycode: nothing for KC_NO, a triangle for
/// KC_TRANSPARENT, the basic name inside the one-byte range, hex otherwise.
pub open spec fn key_label(kc: u16) -> Seq<char> {
    if kc == 0 {
        Seq::empty()
    } else if kc == 1 {
        "▽"@
    } else if kc <= 0xFF && basic_label(kc as u8) is Some {
        basic_label(kc as u8)->0
    } else {
        hex_label(kc)
    }
}

/// Human label for a keycode.
pub fn name_for(kc: u16) -> (s: String)
    ensures
        s@ == key_label(kc),
{
    match kc {
        0x0000 => String::new(),
        0x0001 => String::from_str("▽"),
        _ => {
            let named = if kc <= 0xFF {
                basic(kc as u8)
            } else {
                None
            };
            match named {
                Some(n) => String::from_str(n),
                None => {
                    let mut s = String::new();
                    push_char(&mut s, '0');
                    push_char(&mut s, 'x');
                    push_hex(&mut s, kc as u64, 4, true);
                    assert(s@ =~= hex_label(kc));
                    s
                },
            }
        },
    }
}

/// The name of a basic HID usage, where it has one.
fn basic(kc: u8) -> (r: Option<&'static str>)
    ensures
        match r {
            Some(s) => basic_label(kc) == Some(s@),
            None => basic_label(kc) is None,
        },
{
    if 0x04 <= kc && kc <= 0x1D {
        return Some(letter(0x41 + (kc - 0x04)));
    }
    Some(
        match kc {
            0x1E => "1",
            0x1F => "2",
            0x20 => "3",
            0x21 => "4",
            0x22 => "5",
            0x23 => "6",
            0x24 => "7",
            0x25 => "8",
            0x26 => "9",
            0x27 => "0",
            0x28 => "Enter",
            0x29 => "Esc",
            0x2A => "Bksp",
            0x2B => "Tab",
            0x2C => "Space",
            0x2D => "-",
            0x2E => "=",
            0x2F => "[",
            0x30 => "]",
            0x31 => "\\",
            0x33 => ";",
            0x34 => "'",
            0x35 => "`",
            0x36 => ",",
            0x37 => ".",
            0x38 => "/",
            0x39 => "Caps",
            0x3A => "F1",
            0x3B => "F2",
            0x3C => "F3",
            0x3D => "F4",
            0x3E => "F5",
            0x3F => "F6",
            0x40 => "F7",
            0x41 => "F8",
            0x42 => "F9",
            0x43 => "F10",
            0x44 => "F11",
            0x45 => "F12",
            0x46 => "PrtSc",
            0x47 => "ScrLk",
            0x48 => "Pause",
            0x49 => "Ins",
            0x4A => "Home",
            0x4B => "PgUp",
            0x4C => "Del",
            0x4D => "End",
            0x4E => "PgDn",
            0x4F => "→",
            0x50 => "←",
            0x51 => "↓",
            0x52 => "↑",
            0xE0 => "LCtrl",
            0xE1 => "LShft",
            0xE2 => "LAlt",
            0xE3 => "LGui",
            0xE4 => "RCtrl",
            0xE5 => "RShft",
            0xE6 => "RAlt",
            0xE7 => "RGui",
            _ => return None,
        },
    )
}

/// The single-letter label for an uppercase ASCII letter.
fn letter(b: u8) -> (s: &'static str)
    requires
        0x41 <= b <= 0x5A,
    ensures
        s@ == letter_label(b),
{
    match b {
        0x41 => "A",
        0x42 => "B",
        0x43 => "C",
        0x44 => "D",
        0x45 => "E",
        0x46 => "F",
        0x47 => "G",
        0x48 => "H",
        0x49 => "I",
        0x4A => "J",
        0x4B => "K",
        0x4C => "L",
        0x4D => "M",
        0x4E => "N",
        0x4F => "O",
        0x50 => "P",
        0x51 => "Q",
        0x52 => "R",
        0x53 => "S",
        0x54 => "T",
        0x55 => "U",
        0x56 => "V",
        0x57 => "W",
        0x58 => "X",
        0x59 => "Y",
        _ => "Z",
    }
}


/// One palette entry as plain values: (group, label, keycode).
pub open spec fn entry_view(e: (&'static str, &'static str, u16)) -> (Seq<char>, Seq<char>, u16) {
    (e.0@, e.1@, e.2)
}

/// The keycodes `lo..=hi`, in order.
pub open spec fn code_range(lo: u16, hi: u16) -> Seq<u16> {
    Seq::new((hi - lo + 1) as nat, |i: int| (lo + i) as u16)
}

/// The entries of `group` for those of `codes` that have a basic name, in order.
pub open spec fn named_group(group: Seq<char>, codes: Seq<u16>) -> Seq<(Seq<char>, Seq<char>, u16)>
    decreases codes.len(),
{
    if codes.len() == 0 {
        Seq::empty()
    } else {
        let prev = named_group(group, codes.drop_last());
        let kc = codes.last();
        if kc <= 0xFF && basic_label(kc as u8) is Some {
            prev.push((group, basic_label(kc as u8)->0, kc))
        } else {
            prev
        }
    }
}

/// The keycodes of the `Edit` group.
pub open spec fn edit_codes() -> Seq<u16> {
    seq![0x28u16, 0x29, 0x2A, 0x2B, 0x2C, 0x39]
}

/// The assignment palette, group by group.
pub open spec fn palette_spec() -> Seq<(Seq<char>, Seq<char>, u16)> {
    named_group("Letters"@, code_range(0x04, 0x1D))
        + named_group("Digits"@, code_range(0x1E, 0x27))
        + named_group("Symbols"@, code_range(0x2D, 0x38))
        + named_group("Function"@, code_range(0x3A, 0x45))
        + named_group("Edit"@, edit_codes())
        + named_group("Nav"@, code_range(0x49, 0x52))
        + named_group("Modifiers"@, code_range(0xE0, 0xE7))
        + seq![("Special"@, "TRNS ▽"@, 0x0001u16), ("Special"@, "NO ∅"@, 0x0000u16)]
}

/// Appends the entry for `kc` in `group` when `kc` has a basic name.
fn push_named(v: &mut Vec<(&'static str, &'static str, u16)>, group: &'static str, kc: u16)
    requires
        kc <= 0xFF,
    ensures
        final(v)@.map_values(|e| entry_view(e)) == old(v)@.map_values(|e| entry_view(e)) + (
        if basic_label(kc as u8) is Some {
            seq![(group@, basic_label(kc as u8)->0, kc)]
        } else {
            Seq::empty()
        }),
{
    if let Some(n) = basic(kc as u8) {
        v.push((group, n, kc));
    }
    assert(final(v)@.map_values(|e| entry_view(e)) =~= old(v)@.map_values(|e| entry_view(e)) + (
    if basic_label(kc as u8) is Some {
        seq![(group@, basic_label(kc as u8)->0, kc)]
    } else {
        Seq::empty()
    }));
}

/// Appends the named entries of `group` for the keycodes `lo..=hi`.
fn push_range(v: &mut Vec<(&'static str, &'static str, u16)>, group: &'static str, lo: u16, hi: u16)
    requires
        lo <= hi <= 0xFF,
    ensures
        final(v)@.map_values(|e| entry_view(e)) == old(v)@.map_values(|e| entry_view(e))
            + named_group(group@, code_range(lo, hi)),
{
    let ghost start = v@.map_values(|e| entry_view(e));
    let mut kc = lo;
    loop
        invariant_except_break
            lo <= kc <= hi,
            v@.map_values(|e| entry_view(e)) == start + named_group(group@, code_range(lo, kc).drop_last()),
        invariant
            lo <= hi <= 0xFF,
            start == old(v)@.map_values(|e| entry_view(e)),
        ensures
            v@.map_values(|e| entry_view(e)) == start + named_group(group@, code_range(lo, hi)),
        decreases hi - kc,
    {
        push_named(v, group, kc);
        let ghost codes = code_range(lo, kc);
        assert(codes.last() == kc);
        assert(v@.map_values(|e| entry_view(e)) =~= start + named_group(group@, codes));
        if kc == hi {
            break;
        }
        kc = kc + 1;
        assert(code_range(lo, kc).drop_last() =~= codes);
    }
}

/// A curated palette for the assignment panel: (group, label, keycode).
pub fn palette() -> (p: Vec<(&'static str, &'static str, u16)>)
    ensures
        p@.map_values(|e| entry_view(e)) == palette_spec(),
{
    let mut v = Vec::new();
    assert(v@.map_values(|e| entry_view(e)) =~= Seq::empty());
    push_range(&mut v, "Letters", 0x04, 0x1D);
    push_range(&mut v, "Digits", 0x1E, 0x27);
    push_range(&mut v, "Symbols", 0x2D, 0x38);
    push_range(&mut v, "Function", 0x3A, 0x45);
    let ghost before_edit = v@.map_values(|e| entry_view(e));
    push_named(&mut v, "Edit", 0x28);
    push_named(&mut v, "Edit", 0x29);
    push_named(&mut v, "Edit", 0x2A);
    push_named(&mut v, "Edit", 0x2B);
    push_named(&mut v, "Edit", 0x2C);
    push_named(&mut v, "Edit", 0x39);
    proof {
        let e = edit_codes();
        reveal_with_fuel(named_group, 7);
        assert(e.drop_last().drop_last().drop_last().drop_last().drop_last().drop_last() =~= Seq::<u16>::empty());
        assert(v@.map_values(|e| entry_view(e)) =~= before_edit + named_group("Edit"@, e));
    }
    push_range(&mut v, "Nav", 0x49, 0x52);
    push_range(&mut v, "Modifiers", 0xE0, 0xE7);
    v.push(("Special", "TRNS ▽", 0x0001));
    v.push(("Special", "NO ∅", 0x0000));
    assert(v@.map_values(|e| entry_view(e)) =~= palette_spec());
    v
}


/// The keycodes of `s` are pairwise different.
pub open spec fn distinct_codes(s: Seq<(Seq<char>, Seq<char>, u16)>) -> bool {
    forall|i: int, j: int| 0 <= i < j < s.len() ==> s[i].2 != s[j].2
}

/// The entries of `s` are named after their keycode and lie in the group `group`,
/// with keycodes in `lo..=hi`.
pub open spec fn well_named(s: Seq<(Seq<char>, Seq<char>, u16)>, group: Seq<char>, lo: int, hi: int) -> bool {
    forall|j: int|
        #![trigger s[j]]
        0 <= j < s.len() ==> {
            &&& s[j].0 == group
            &&& lo <= s[j].2 <= hi
            &&& s[j].2 <= 0xFF
            &&& basic_label(s[j].2 as u8) == Some(s[j].1)
        }
}

proof fn lemma_named_group(group: Seq<char>, codes: Seq<u16>)
    ensures
        forall|j: int|
            0 <= j < named_group(group, codes).len() ==> {
                &&& (#[trigger] named_group(group, codes)[j]).0 == group
                &&& named_group(group, codes)[j].2 <= 0xFF
                &&& basic_label(named_group(group, codes)[j].2 as u8) == Some(named_group(group, codes)[j].1)
                &&& codes.contains(named_group(group, codes)[j].2)
            },
        (forall|a: int, b: int| 0 <= a < b < codes.len() ==> codes[a] < codes[b]) ==> distinct_codes(
            named_group(group, codes),
        ),
    decreases codes.len(),
{
    if codes.len() > 0 {
        let prev = codes.drop_last();
        lemma_named_group(group, prev);
        let ng = named_group(group, codes);
        let pg = named_group(group, prev);
        assert forall|j: int| 0 <= j < ng.len() implies codes.contains(#[trigger] ng[j].2) by {
            if j < pg.len() {
                let k = choose|k: int| 0 <= k < prev.len() && prev[k] == pg[j].2;
                assert(codes[k] == prev[k]);
            } else {
                assert(codes[codes.len() - 1] == ng[j].2);
            }
        }
        if forall|a: int, b: int| 0 <= a < b < codes.len() ==> codes[a] < codes[b] {
            assert forall|a: int, b: int| 0 <= a < b < prev.len() implies prev[a] < prev[b] by {
                assert(prev[a] == codes[a] && prev[b] == codes[b]);
            }
            assert forall|i: int, j: int| 0 <= i < j < ng.len() implies ng[i].2 != ng[j].2 by {
                if j >= pg.len() {
                    let k = choose|k: int| 0 <= k < prev.len() && prev[k] == pg[i].2;
                    assert(codes[k] < codes[codes.len() - 1]);
                }
            }
        }
    }
}

proof fn lemma_range_group(group: Seq<char>, lo: u16, hi: u16)
    requires
        lo <= hi <= 0xFF,
    ensures
        distinct_codes(named_group(group, code_range(lo, hi))),
        well_named(named_group(group, code_range(lo, hi)), group, lo as int, hi as int),
{
    let codes = code_range(lo, hi);
    lemma_named_group(group, codes);
    let ng = named_group(group, codes);
    assert forall|j: int| 0 <= j < ng.len() implies lo <= #[trigger] ng[j].2 <= hi by {
        let k = choose|k: int| 0 <= k < codes.len() && codes[k] == ng[j].2;
    }
}

proof fn lemma_concat_distinct(a: Seq<(Seq<char>, Seq<char>, u16)>, b: Seq<(Seq<char>, Seq<char>, u16)>)
    requires
        distinct_codes(a),
        distinct_codes(b),
        forall|i: int, j: int| 0 <= i < a.len() && 0 <= j < b.len() ==> a[i].2 != b[j].2,
    ensures
        distinct_codes(a + b),
{
    let c = a + b;
    assert forall|i: int, j: int| 0 <= i < j < c.len() implies c[i].2 != c[j].2 by {
        if j < a.len() {
        } else if i >= a.len() {
            assert(c[i] == b[i - a.len()] && c[j] == b[j - a.len()]);
        } else {
            assert(c[i] == a[i] && c[j] == b[j - a.len()]);
        }
    }
}

/// The palette's groups, as plain values, with the facts the laws need.
proof fn lemma_palette_groups()
    ensures
        distinct_codes(named_group("Letters"@, code_range(0x04, 0x1D))),
        well_named(named_group("Letters"@, code_range(0x04, 0x1D)), "Letters"@, 0x04, 0x1D),
        distinct_codes(named_group("Digits"@, code_range(0x1E, 0x27))),
        well_named(named_group("Digits"@, code_range(0x1E, 0x27)), "Digits"@, 0x1E, 0x27),
        distinct_codes(named_group("Symbols"@, code_range(0x2D, 0x38))),
        well_named(named_group("Symbols"@, code_range(0x2D, 0x38)), "Symbols"@, 0x2D, 0x38),
        distinct_codes(named_group("Function"@, code_range(0x3A, 0x45))),
        well_named(named_group("Function"@, code_range(0x3A, 0x45)), "Function"@, 0x3A, 0x45),
        distinct_codes(named_group("Edit"@, edit_codes())),
        well_named(named_group("Edit"@, edit_codes()), "Edit"@, 0x28, 0x39),
        forall|j: int|
            0 <= j < named_group("Edit"@, edit_codes()).len() ==> #[trigger] named_group(
                "Edit"@,
                edit_codes(),
            )[j].2 <= 0x2C || named_group("Edit"@, edit_codes())[j].2 == 0x39,
        distinct_codes(named_group("Nav"@, code_range(0x49, 0x52))),
        well_named(named_group("Nav"@, code_range(0x49, 0x52)), "Nav"@, 0x49, 0x52),
        distinct_codes(named_group("Modifiers"@, code_range(0xE0, 0xE7))),
        well_named(named_group("Modifiers"@, code_range(0xE0, 0xE7)), "Modifiers"@, 0xE0, 0xE7),
{
    lemma_range_group("Letters"@, 0x04, 0x1D);
    lemma_range_group("Digits"@, 0x1E, 0x27);
    lemma_range_group("Symbols"@, 0x2D, 0x38);
    lemma_range_group("Function"@, 0x3A, 0x45);
    lemma_range_group("Nav"@, 0x49, 0x52);
    lemma_range_group("Modifiers"@, 0xE0, 0xE7);
    let e = edit_codes();
    lemma_named_group("Edit"@, e);
    let ng = named_group("Edit"@, e);
    assert forall|j: int| 0 <= j < ng.len() implies 0x28 <= #[trigger] ng[j].2 <= 0x39 && (ng[j].2
        <= 0x2C || ng[j].2 == 0x39) by {
        let k = choose|k: int| 0 <= k < e.len() && e[k] == ng[j].2;
    }
}

/// Law: no keycode appears twice in the palette.
pub proof fn palette_keycodes_distinct()
    ensures
        distinct_codes(palette_spec()),
{
    lemma_palette_groups();
    let l = named_group("Letters"@, code_range(0x04, 0x1D));
    let d = named_group("Digits"@, code_range(0x1E, 0x27));
    let s = named_group("Symbols"@, code_range(0x2D, 0x38));
    let f = named_group("Function"@, code_range(0x3A, 0x45));
    let e = named_group("Edit"@, edit_codes());
    let n = named_group("Nav"@, code_range(0x49, 0x52));
    let m = named_group("Modifiers"@, code_range(0xE0, 0xE7));
    let sp = seq![("Special"@, "TRNS ▽"@, 0x0001u16), ("Special"@, "NO ∅"@, 0x0000u16)];
    lemma_concat_distinct(l, d);
    let p = l + d;
    assert forall|i: int| 0 <= i < p.len() implies 0x04 <= #[trigger] p[i].2 <= 0x27 by {
        if i >= l.len() {
            assert(p[i] == d[i - l.len()]);
        }
    }
    lemma_concat_distinct(p, s);
    let p2 = p + s;
    assert forall|i: int| 0 <= i < p2.len() implies 0x04 <= #[trigger] p2[i].2 <= 0x38 && p2[i].2
        != 0x28 && p2[i].2 != 0x29 && p2[i].2 != 0x2A && p2[i].2 != 0x2B && p2[i].2 != 0x2C by {
        if i >= p.len() {
            assert(p2[i] == s[i - p.len()]);
        } else {
            assert(p2[i] == p[i]);
            if i >= l.len() {
                assert(p[i] == d[i - l.len()]);
            }
        }
    }
    lemma_concat_distinct(p2, f);
    let p3 = p2 + f;
    assert forall|i: int| 0 <= i < p3.len() implies 0x04 <= #[trigger] p3[i].2 <= 0x45 && p3[i].2
        != 0x28 && p3[i].2 != 0x29 && p3[i].2 != 0x2A && p3[i].2 != 0x2B && p3[i].2 != 0x2C
        && p3[i].2 != 0x39 by {
        if i >= p2.len() {
            assert(p3[i] == f[i - p2.len()]);
        } else {
            assert(p3[i] == p2[i]);
        }
    }
    lemma_concat_distinct(p3, e);
    let p4 = p3 + e;
    assert forall|i: int| 0 <= i < p4.len() implies 0x04 <= #[trigger] p4[i].2 <= 0x45 by {
        if i >= p3.len() {
            assert(p4[i] == e[i - p3.len()]);
        } else {
            assert(p4[i] == p3[i]);
        }
    }
    lemma_concat_distinct(p4, n);
    let p5 = p4 + n;
    assert forall|i: int| 0 <= i < p5.len() implies 0x04 <= #[trigger] p5[i].2 <= 0x52 by {
        if i >= p4.len() {
            assert(p5[i] == n[i - p4.len()]);
        } else {
            assert(p5[i] == p4[i]);
        }
    }
    lemma_concat_distinct(p5, m);
    let p6 = p5 + m;
    assert forall|i: int| 0 <= i < p6.len() implies 0x04 <= #[trigger] p6[i].2 <= 0xE7 by {
        if i >= p5.len() {
            assert(p6[i] == m[i - p5.len()]);
        } else {
            assert(p6[i] == p5[i]);
        }
    }
    lemma_concat_distinct(p6, sp);
    assert(palette_spec() == p6 + sp);
}

/// Law: outside the `Special` group, each palette entry is labelled exactly as
/// `name_for` labels its keycode; the `Special` entries are KC_TRANSPARENT and KC_NO.
pub proof fn palette_labels_are_key_labels(i: int)
    requires
        0 <= i < palette_spec().len(),
    ensures
        palette_spec()[i].0 != "Special"@ ==> palette_spec()[i].1 == key_label(palette_spec()[i].2)
            && palette_spec()[i].2 > 1,
        palette_spec()[i].0 == "Special"@ ==> palette_spec()[i].2 <= 1,
{
    lemma_palette_groups();
    let l = named_group("Letters"@, code_range(0x04, 0x1D));
    let d = named_group("Digits"@, code_range(0x1E, 0x27));
    let s = named_group("Symbols"@, code_range(0x2D, 0x38));
    let f = named_group("Function"@, code_range(0x3A, 0x45));
    let e = named_group("Edit"@, edit_codes());
    let n = named_group("Nav"@, code_range(0x49, 0x52));
    let m = named_group("Modifiers"@, code_range(0xE0, 0xE7));
    let sp = seq![("Special"@, "TRNS ▽"@, 0x0001u16), ("Special"@, "NO ∅"@, 0x0000u16)];
    let p = palette_spec();
    assert(p == l + d + s + f + e + n + m + sp);
    assert(p.len() == l.len() + d.len() + s.len() + f.len() + e.len() + n.len() + m.len() + 2);
    reveal_strlit("Special");
    reveal_strlit("Letters");
    reveal_strlit("Digits");
    reveal_strlit("Symbols");
    reveal_strlit("Function");
    reveal_strlit("Edit");
    reveal_strlit("Nav");
    reveal_strlit("Modifiers");
    assert("Letters"@[0] != "Special"@[0]);
    assert("Digits"@.len() != "Special"@.len());
    assert("Symbols"@[1] != "Special"@[1]);
    assert("Function"@.len() != "Special"@.len());
    assert("Edit"@.len() != "Special"@.len());
    assert("Nav"@.len() != "Special"@.len());
    assert("Modifiers"@.len() != "Special"@.len());
    let mut k = i;
    if k < l.len() {
        assert(p[i] == l[k]);
    } else {
        k = k - l.len();
        if k < d.len() {
            assert(p[i] == d[k]);
        } else {
            k = k - d.len();
            if k < s.len() {
                assert(p[i] == s[k]);
            } else {
                k = k - s.len();
                if k < f.len() {
                    assert(p[i] == f[k]);
                } else {
                    k = k - f.len();
                    if k < e.len() {
                        assert(p[i] == e[k]);
                    } else {
                        k = k - e.len();
                        if k < n.len() {
                            assert(p[i] == n[k]);
                        } else {
                            k = k - n.len();
                            if k < m.len() {
                                assert(p[i] == m[k]);
                            } else {
                                k = k - m.len();
                                assert(p[i] == sp[k]);
                            }
                        }
                    }
                }
            }
        }
    }
}


/// The value of a base-sixteen digit character (uppercase), or `-1`.
spec fn hex_value(c: char) -> int {
    if '0' <= c <= '9' {
        c as int - 0x30
    } else if 'A' <= c <= 'F' {
        c as int - 0x41 + 10
    } else {
        -1
    }
}

/// Reads a keycode back from a label made by `key_label`; `-1` for other text.
spec fn label_code(s: Seq<char>) -> int {
    if s.len() == 0 {
        0
    } else if s.len() == 1 {
        let c = s[0];
        if 'A' <= c <= 'Z' {
            c as int - 0x41 + 0x04
        } else if '1' <= c <= '9' {
            c as int - 0x31 + 0x1E
        } else {
            match c {
                '0' => 0x27,
                '-' => 0x2D,
                '=' => 0x2E,
                '[' => 0x2F,
                ']' => 0x30,
                '\\' => 0x31,
                ';' => 0x33,
                '\'' => 0x34,
                '`' => 0x35,
                ',' => 0x36,
                '.' => 0x37,
                '/' => 0x38,
                '→' => 0x4F,
                '←' => 0x50,
                '↓' => 0x51,
                '↑' => 0x52,
                '▽' => 0x01,
                _ => -1,
            }
        }
    } else if s.len() == 2 {
        s[1] as int - 0x31 + 0x3A
    } else if s.len() == 3 {
        match s[0] {
            'E' => if s[1] == 's' { 0x29 } else { 0x4D },
            'T' => 0x2B,
            'I' => 0x49,
            'D' => 0x4C,
            _ => s[2] as int - 0x30 + 0x43,
        }
    } else if s.len() == 4 {
        match s[0] {
            'B' => 0x2A,
            'C' => 0x39,
            'H' => 0x4A,
            'P' => if s[2] == 'U' { 0x4B } else { 0x4E },
            'L' => if s[1] == 'A' { 0xE2 } else { 0xE3 },
            _ => if s[1] == 'A' { 0xE6 } else { 0xE7 },
        }
    } else if s.len() == 5 {
        match s[0] {
            'E' => 0x28,
            'S' => if s[1] == 'p' { 0x2C } else { 0x47 },
            'P' => if s[1] == 'r' { 0x46 } else { 0x48 },
            'L' => if s[1] == 'C' { 0xE0 } else { 0xE1 },
            _ => if s[1] == 'C' { 0xE4 } else { 0xE5 },
        }
    } else {
        hex_value(s[2]) * 4096 + hex_value(s[3]) * 256 + hex_value(s[4]) * 16 + hex_value(s[5])
    }
}

proof fn lemma_basic_label_code(kc: u8)
    requires
        basic_label(kc) is Some,
    ensures
        label_code(basic_label(kc)->0) == kc,
        1 <= basic_label(kc)->0.len() <= 5,
        basic_label(kc)->0.len() >= 2 ==> basic_label(kc)->0[0] != '0',
{
    reveal_strlit("A");
    reveal_strlit("B");
    reveal_strlit("C");
    reveal_strlit("D");
    reveal_strlit("E");
    reveal_strlit("F");
    reveal_strlit("G");
    reveal_strlit("H");
    reveal_strlit("I");
    reveal_strlit("J");
    reveal_strlit("K");
    reveal_strlit("L");
    reveal_strlit("M");
    reveal_strlit("N");
    reveal_strlit("O");
    reveal_strlit("P");
    reveal_strlit("Q");
    reveal_strlit("R");
    reveal_strlit("S");
    reveal_strlit("T");
    reveal_strlit("U");
    reveal_strlit("V");
    reveal_strlit("W");
    reveal_strlit("X");
    reveal_strlit("Y");
    reveal_strlit("Z");
    reveal_strlit("1");
    reveal_strlit("2");
    reveal_strlit("3");
    reveal_strlit("4");
    reveal_strlit("5");
    reveal_strlit("6");
    reveal_strlit("7");
    reveal_strlit("8");
    reveal_strlit("9");
    reveal_strlit("0");
    reveal_strlit("Enter");
    reveal_strlit("Esc");
    reveal_strlit("Bksp");
    reveal_strlit("Tab");
    reveal_strlit("Space");
    reveal_strlit("-");
    reveal_strlit("=");
    reveal_strlit("[");
    reveal_strlit("]");
    reveal_strlit("\\");
    reveal_strlit(";");
    reveal_strlit("'");
    reveal_strlit("`");
    reveal_strlit(",");
    reveal_strlit(".");
    reveal_strlit("/");
    reveal_strlit("Caps");
    reveal_strlit("F1");
    reveal_strlit("F2");
    reveal_strlit("F3");
    reveal_strlit("F4");
    reveal_strlit("F5");
    reveal_strlit("F6");
    reveal_strlit("F7");
    reveal_strlit("F8");
    reveal_strlit("F9");
    reveal_strlit("F10");
    reveal_strlit("F11");
    reveal_strlit("F12");
    reveal_strlit("PrtSc");
    reveal_strlit("ScrLk");
    reveal_strlit("Pause");
    reveal_strlit("Ins");
    reveal_strlit("Home");
    reveal_strlit("PgUp");
    reveal_strlit("Del");
    reveal_strlit("End");
    reveal_strlit("PgDn");
    reveal_strlit("→");
    reveal_strlit("←");
    reveal_strlit("↓");
    reveal_strlit("↑");
    reveal_strlit("LCtrl");
    reveal_strlit("LShft");
    reveal_strlit("LAlt");
    reveal_strlit("LGui");
    reveal_strlit("RCtrl");
    reveal_strlit("RShft");
    reveal_strlit("RAlt");
    reveal_strlit("RGui");
    reveal_strlit("▽");
}

proof fn lemma_hex_label_code(kc: u16)
    ensures
        label_code(hex_label(kc)) == kc,
        hex_label(kc).len() == 6,
{
    let v = kc as nat;
    let d0 = v % 16;
    let d1 = (v / 16) % 16;
    let d2 = (v / 16 / 16) % 16;
    let d3 = (v / 16 / 16 / 16) % 16;
    reveal_with_fuel(hex_digits, 5);
    let s = hex_label(kc);
    assert(s =~= seq!['0', 'x', crate::text::hex_digit(d3 as int, true), crate::text::hex_digit(d2 as int, true),
        crate::text::hex_digit(d1 as int, true), crate::text::hex_digit(d0 as int, true)]);
    assert(kc == ((kc / 16 / 16 / 16) % 16) * 4096 + ((kc / 16 / 16) % 16) * 256 + ((kc / 16) % 16) * 16 + kc % 16)
        by (bit_vector);
}

/// Law: `name_for` gives different keycodes different labels, so a label
/// names exactly one keycode.
pub proof fn key_labels_distinct(a: u16, b: u16)
    requires
        key_label(a) == key_label(b),
    ensures
        a == b,
{
    lemma_key_label_code(a);
    lemma_key_label_code(b);
}

proof fn lemma_key_label_code(kc: u16)
    ensures
        label_code(key_label(kc)) == kc,
{
    if kc == 1 {
        reveal_strlit("▽");
    } else if kc > 1 && kc <= 0xFF && basic_label(kc as u8) is Some {
        lemma_basic_label_code(kc as u8);
    } else if kc > 1 {
        lemma_hex_label_code(kc);
    }
}

/// Law: the basic names are pairwise different.
pub proof fn basic_labels_distinct(a: u8, b: u8)
    requires
        basic_label(a) is Some,
        basic_label(a) == basic_label(b),
    ensures
        a == b,
{
    lemma_basic_label_code(a);
    lemma_basic_label_code(b);
}

/// Law: a basic name is never empty, never the KC_TRANSPARENT triangle and
/// never looks like a hexadecimal fallback label.
pub proof fn basic_labels_plain(kc: u8)
    requires
        basic_label(kc) is Some,
    ensures
        basic_label(kc)->0.len() > 0,
        basic_label(kc)->0 != Seq::<char>::empty(),
        basic_label(kc)->0 != "▽"@,
        !(basic_label(kc)->0.len() >= 2 && basic_label(kc)->0[0] == '0' && basic_label(kc)->0[1] == 'x'),
{
    lemma_basic_label_code(kc);
    reveal_strlit("▽");
    assert(label_code("▽"@) == 1);
    assert(0x04 <= kc);
}

/// Some entry of `s` has the keycode `kc`.
pub open spec fn has_code(s: Seq<(Seq<char>, Seq<char>, u16)>, kc: u16) -> bool {
    exists|j: int| 0 <= j < s.len() && #[trigger] s[j].2 == kc
}

proof fn lemma_has_code_concat(a: Seq<(Seq<char>, Seq<char>, u16)>, b: Seq<(Seq<char>, Seq<char>, u16)>, kc: u16)
    ensures
        has_code(a + b, kc) <==> has_code(a, kc) || has_code(b, kc),
{
    let c = a + b;
    if has_code(a, kc) {
        let j = choose|j: int| 0 <= j < a.len() && #[trigger] a[j].2 == kc;
        assert(c[j] == a[j]);
    }
    if has_code(b, kc) {
        let j = choose|j: int| 0 <= j < b.len() && #[trigger] b[j].2 == kc;
        assert(c[a.len() + j] == b[j]);
    }
    if has_code(c, kc) {
        let j = choose|j: int| 0 <= j < c.len() && #[trigger] c[j].2 == kc;
        if j < a.len() {
            assert(c[j] == a[j]);
        } else {
            assert(c[j] == b[j - a.len()]);
        }
    }
}

/// Every named code among `codes` has an entry in its group.
proof fn lemma_named_group_complete(group: Seq<char>, codes: Seq<u16>, kc: u16)
    requires
        codes.contains(kc),
        kc <= 0xFF,
        basic_label(kc as u8) is Some,
    ensures
        has_code(named_group(group, codes), kc),
    decreases codes.len(),
{
    let ng = named_group(group, codes);
    if codes.last() == kc {
        assert(ng.last().2 == kc);
        assert(ng[ng.len() - 1].2 == kc);
    } else {
        let prev = codes.drop_last();
        let k = choose|k: int| 0 <= k < codes.len() && codes[k] == kc;
        assert(prev[k] == kc);
        lemma_named_group_complete(group, prev, kc);
        let pg = named_group(group, prev);
        let j = choose|j: int| 0 <= j < pg.len() && #[trigger] pg[j].2 == kc;
        assert(ng[j] == pg[j]);
    }
}

proof fn lemma_range_complete(group: Seq<char>, lo: u16, hi: u16, kc: u16)
    requires
        lo <= kc <= hi <= 0xFF,
        basic_label(kc as u8) is Some,
    ensures
        has_code(named_group(group, code_range(lo, hi)), kc),
{
    assert(code_range(lo, hi)[kc - lo] == kc);
    lemma_named_group_complete(group, code_range(lo, hi), kc);
}

/// Law: the palette offers exactly KC_NO, KC_TRANSPARENT and every named basic
/// key except PrtSc, ScrLk and Pause.
pub proof fn palette_keycode_set(kc: u16)
    ensures
        has_code(palette_spec(), kc) <==> (kc <= 1 || (kc <= 0xFF && basic_label(kc as u8) is Some
            && kc != 0x46 && kc != 0x47 && kc != 0x48)),
{
    lemma_palette_groups();
    let l = named_group("Letters"@, code_range(0x04, 0x1D));
    let d = named_group("Digits"@, code_range(0x1E, 0x27));
    let s = named_group("Symbols"@, code_range(0x2D, 0x38));
    let f = named_group("Function"@, code_range(0x3A, 0x45));
    let e = named_group("Edit"@, edit_codes());
    let n = named_group("Nav"@, code_range(0x49, 0x52));
    let m = named_group("Modifiers"@, code_range(0xE0, 0xE7));
    let sp = seq![("Special"@, "TRNS ▽"@, 0x0001u16), ("Special"@, "NO ∅"@, 0x0000u16)];
    let p1 = l + d;
    let p2 = p1 + s;
    let p3 = p2 + f;
    let p4 = p3 + e;
    let p5 = p4 + n;
    let p6 = p5 + m;
    assert(palette_spec() == p6 + sp);
    lemma_has_code_concat(l, d, kc);
    lemma_has_code_concat(p1, s, kc);
    lemma_has_code_concat(p2, f, kc);
    lemma_has_code_concat(p3, e, kc);
    lemma_has_code_concat(p4, n, kc);
    lemma_has_code_concat(p5, m, kc);
    lemma_has_code_concat(p6, sp, kc);
    if kc <= 1 {
        assert(sp[1 - kc].2 == kc);
    } else if kc <= 0xFF && basic_label(kc as u8) is Some && kc != 0x46 && kc != 0x47 && kc != 0x48 {
        if kc <= 0x1D {
            lemma_range_complete("Letters"@, 0x04, 0x1D, kc);
        } else if kc <= 0x27 {
            lemma_range_complete("Digits"@, 0x1E, 0x27, kc);
        } else if kc <= 0x2C || kc == 0x39 {
            let ec = edit_codes();
            if kc == 0x39 {
                assert(ec[5] == kc);
            } else {
                assert(ec[kc - 0x28] == kc);
            }
            lemma_named_group_complete("Edit"@, ec, kc);
        } else if kc <= 0x38 {
            lemma_range_complete("Symbols"@, 0x2D, 0x38, kc);
        } else if kc <= 0x45 {
            lemma_range_complete("Function"@, 0x3A, 0x45, kc);
        } else if kc <= 0x52 {
            lemma_range_complete("Nav"@, 0x49, 0x52, kc);
        } else {
            lemma_range_complete("Modifiers"@, 0xE0, 0xE7, kc);
        }
    } else {
        assert forall|q: Seq<(Seq<char>, Seq<char>, u16)>, lo: int, hi: int, g: Seq<char>|
            well_named(q, g, lo, hi) && lo >= 0x04 && (hi < 0x46 || lo > 0x48) implies !has_code(q, kc) by {
            if has_code(q, kc) {
                let j = choose|j: int| 0 <= j < q.len() && #[trigger] q[j].2 == kc;
                assert(q[j].2 == kc);
            }
        }
        if has_code(e, kc) {
            let j = choose|j: int| 0 <= j < e.len() && #[trigger] e[j].2 == kc;
            assert(e[j].2 == kc);
        }
        if has_code(sp, kc) {
            let j = choose|j: int| 0 <= j < sp.len() && #[trigger] sp[j].2 == kc;
            assert(j == 0 || j == 1);
        }
    }
}

/// Law: every basic usage this module documents as named has a name, so
/// `name_for` never falls back to hex for it: 0x04–0x31, 0x33–0x52 and
/// 0xE0–0xE7 (letters, digits, editing keys, symbols, F1–F12, PrtSc, ScrLk,
/// Pause, navigation, arrows, modifiers). Codes 0x02, 0x03, 0x32, 0x53–0xDF
/// and 0xE8–0xFF have no name.
pub proof fn documented_codes_are_named(kc: u8)
    ensures
        (0x04 <= kc <= 0x31 || 0x33 <= kc <= 0x52 || 0xE0 <= kc <= 0xE7) <==> basic_label(kc) is Some,
        (0x04 <= kc <= 0x31 || 0x33 <= kc <= 0x52 || 0xE0 <= kc <= 0xE7) ==> key_label(kc as u16)
            == basic_label(kc)->0 && key_label(kc as u16).len() <= 5,
{
    if basic_label(kc) is Some {
        lemma_basic_label_code(kc);
    }
}

/// Law: the system keys between F12 and the navigation block have their
/// names: 0x46 is "PrtSc", 0x47 "ScrLk", 0x48 "Pause".
pub proof fn system_keys_are_named(kc: u8)
    requires
        0x46 <= kc <= 0x48,
    ensures
        key_label(kc as u16) == (if kc == 0x46 {
            seq!['P', 'r', 't', 'S', 'c']
        } else if kc == 0x47 {
            seq!['S', 'c', 'r', 'L', 'k']
        } else {
            seq!['P', 'a', 'u', 's', 'e']
        }),
{
    reveal_strlit("PrtSc");
    reveal_strlit("ScrLk");
    reveal_strlit("Pause");
    assert("PrtSc"@ =~= seq!['P', 'r', 't', 'S', 'c']);
    assert("ScrLk"@ =~= seq!['S', 'c', 'r', 'L', 'k']);
    assert("Pause"@ =~= seq!['P', 'a', 'u', 's', 'e']);
}

} // verus!
