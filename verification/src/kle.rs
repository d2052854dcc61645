//! Minimal KLE (keyboard-layout-editor) decoder for VIA definitions.
//!
//! VIA definitions store the physical layout in KLE JSON: an array of rows, each
//! row an array of items. An item is either a string (a key, whose first label
//! line is "row,col") or an object that adjusts the cursor/size of the *next*
//! key (x/y offsets, w/h size). Enough for the V4 (no rotation, no layout opts).
//!
//! Positions and sizes are fixed-point numbers: `UNIT` stands for one key unit
//! (1u), so a JSON number is read in thousandths of a key unit, rounded to the
//! nearest (0.25u is 250). Sums saturate at the bounds of `i64`. Values that
//! are multiples of 0.001u, as VIA definitions use (0.25u, 0.5u, ...), add up
//! exactly; finer values are rounded when the JSON is read.

use vstd::prelude::*;

use crate::text::decimal;

verus! {

/// One key unit (1u) in the fixed-point numbers of this module.
pub const UNIT: i64 = 1000;

/// One item of a KLE row, as read from the definition's JSON.
pub enum Item {
    /// An object: offsets and size for the next key; `None` where a property is
    /// absent or not a number.
    Props { x: Option<i64>, y: Option<i64>, w: Option<i64>, h: Option<i64> },
    /// A string: a key whose label's first line is "row,col".
    Label(String),
    /// Anything else (ignored).
    Other,
}

/// One row of the KLE keymap.
pub enum Row {
    /// A JSON array of items.
    Items(Vec<Item>),
    /// Any other JSON value (skipped).
    NotArray,
}

/// A positioned key: top-left corner and size in fixed-point key units, and the
/// switch matrix position it is wired to.
#[derive(Clone, Copy, Debug)]
pub struct Key {
    pub x: i64,
    pub y: i64,
    pub w: i64,
    pub h: i64,
    pub row: u8,
    pub col: u8,
}

// ---- text -------------------------------------------------------------------

/// Index of the first `c` in `s`, or `s.len()` when there is none.
pub open spec fn find_char(s: Seq<char>, c: char) -> int
    decreases s.len(),
{
    if s.len() == 0 {
        0
    } else if s[0] == c {
        0
    } else {
        1 + find_char(s.drop_first(), c)
    }
}

/// The first line of a label (the text before the first newline).
pub open spec fn first_line(s: Seq<char>) -> Seq<char> {
    s.take(find_char(s, '\n'))
}

/// Unicode `White_Space`, as `char::is_whitespace` decides it.
pub open spec fn is_space(c: char) -> bool {
    ||| '\u{9}' <= c <= '\u{D}'
    ||| c == ' '
    ||| c == '\u{85}'
    ||| c == '\u{A0}'
    ||| c == '\u{1680}'
    ||| '\u{2000}' <= c <= '\u{200A}'
    ||| c == '\u{2028}'
    ||| c == '\u{2029}'
    ||| c == '\u{202F}'
    ||| c == '\u{205F}'
    ||| c == '\u{3000}'
}

/// Number of leading white-space characters.
pub open spec fn lead_space(s: Seq<char>) -> int
    decreases s.len(),
{
    if s.len() == 0 {
        0
    } else if is_space(s[0]) {
        1 + lead_space(s.drop_first())
    } else {
        0
    }
}

/// Number of trailing white-space characters.
pub open spec fn trail_space(s: Seq<char>) -> int
    decreases s.len(),
{
    if s.len() == 0 {
        0
    } else if is_space(s.last()) {
        1 + trail_space(s.drop_last())
    } else {
        0
    }
}

/// `s` without leading and trailing white space (`str::trim`).
pub open spec fn trim(s: Seq<char>) -> Seq<char> {
    let t = s.skip(lead_space(s));
    t.take(t.len() - trail_space(t))
}

pub open spec fn is_digit(c: char) -> bool {
    '0' <= c <= '9'
}

/// The decimal value of a string of digits.
pub open spec fn digits_value(s: Seq<char>) -> nat
    decreases s.len(),
{
    if s.len() == 0 {
        0
    } else {
        digits_value(s.drop_last()) * 10 + (s.last() as nat - 0x30) as nat
    }
}

/// `t` without one leading `+`.
pub open spec fn unsigned_digits(t: Seq<char>) -> Seq<char> {
    if t.len() > 0 && t[0] == '+' {
        t.skip(1)
    } else {
        t
    }
}

pub open spec fn all_digits(d: Seq<char>) -> bool {
    forall|i: int| 0 <= i < d.len() ==> is_digit(#[trigger] d[i])
}

/// `u8`'s `FromStr`: an optional `+`, then one or more ASCII digits, at most 255.
pub open spec fn parse_u8(t: Seq<char>) -> Option<u8> {
    let d = unsigned_digits(t);
    if d.len() == 0 || !all_digits(d) || digits_value(d) > 255 {
        None
    } else {
        Some(digits_value(d) as u8)
    }
}

/// "row,col": split at the first comma, each side trimmed and read as a `u8`.
pub open spec fn matrix_of(s: Seq<char>) -> Option<(u8, u8)> {
    let p = find_char(s, ',');
    if p >= s.len() {
        None
    } else {
        match (parse_u8(trim(s.take(p))), parse_u8(trim(s.skip(p + 1)))) {
            (Some(r), Some(c)) => Some((r, c)),
            _ => None,
        }
    }
}

/// Index of the first `c` in `s`, or the number of characters of `s`.
pub fn find_first(s: &str, c: char) -> (i: usize)
    ensures
        i == find_char(s@, c),
        i <= s@.len(),
{
    let n = s.unicode_len();
    let mut i: usize = 0;
    assert(s@.skip(0) =~= s@);
    while i < n
        invariant
            n == s@.len(),
            0 <= i <= n,
            find_char(s@, c) == i + find_char(s@.skip(i as int), c),
        decreases n - i,
    {
        assert(s@.skip(i as int)[0] == s@[i as int]);
        if s.get_char(i) == c {
            return i;
        }
        assert(s@.skip(i as int).drop_first() =~= s@.skip(i + 1));
        i = i + 1;
    }
    assert(s@.skip(i as int).len() == 0);
    i
}

/// Whether `c` is white space (`char::is_whitespace`).
pub fn is_whitespace(c: char) -> (b: bool)
    ensures
        b == is_space(c),
{
    ('\u{9}' <= c && c <= '\u{D}') || c == ' ' || c == '\u{85}' || c == '\u{A0}' || c == '\u{1680}'
        || ('\u{2000}' <= c && c <= '\u{200A}') || c == '\u{2028}' || c == '\u{2029}' || c
        == '\u{202F}' || c == '\u{205F}' || c == '\u{3000}'
}

/// The bounds of `trim` applied to the characters `lo..hi` of `s`.
fn trim_range(s: &str, lo: usize, hi: usize) -> (r: (usize, usize))
    requires
        lo <= hi <= s@.len(),
    ensures
        lo <= r.0 <= r.1 <= hi,
        s@.subrange(r.0 as int, r.1 as int) == trim(s@.subrange(lo as int, hi as int)),
{
    let ghost sub = s@.subrange(lo as int, hi as int);
    let mut a = lo;
    while a < hi && is_whitespace(s.get_char(a))
        invariant
            lo <= a <= hi <= s@.len(),
            sub == s@.subrange(lo as int, hi as int),
            lead_space(sub) == (a - lo) + lead_space(s@.subrange(a as int, hi as int)),
        decreases hi - a,
    {
        assert(s@.subrange(a as int, hi as int).drop_first() =~= s@.subrange(a + 1, hi as int));
        a = a + 1;
    }
    proof {
        if a < hi {
            assert(s@.subrange(a as int, hi as int)[0] == s@[a as int]);
        }
        assert(sub.skip(lead_space(sub)) =~= s@.subrange(a as int, hi as int));
    }
    let ghost t = s@.subrange(a as int, hi as int);
    let mut b = hi;
    while b > a && is_whitespace(s.get_char(b - 1))
        invariant
            lo <= a <= b <= hi <= s@.len(),
            t == s@.subrange(a as int, hi as int),
            trail_space(t) == (hi - b) + trail_space(s@.subrange(a as int, b as int)),
        decreases b - a,
    {
        assert(s@.subrange(a as int, b as int).drop_last() =~= s@.subrange(a as int, b - 1));
        b = b - 1;
    }
    proof {
        if b > a {
            assert(s@.subrange(a as int, b as int).last() == s@[b - 1]);
        }
        assert(t.take(t.len() - trail_space(t)) =~= s@.subrange(a as int, b as int));
    }
    (a, b)
}

/// `u8`'s `FromStr` applied to the characters `lo..hi` of `s`.
fn parse_u8_range(s: &str, lo: usize, hi: usize) -> (r: Option<u8>)
    requires
        lo <= hi <= s@.len(),
    ensures
        r == parse_u8(s@.subrange(lo as int, hi as int)),
{
    let ghost t = s@.subrange(lo as int, hi as int);
    let mut a = lo;
    if a < hi && s.get_char(a) == '+' {
        a = a + 1;
    }
    let ghost d = s@.subrange(a as int, hi as int);
    assert(d =~= unsigned_digits(t));
    if a == hi {
        return None;
    }
    // The value read so far, held at 256 once it passes 255.
    let mut v: u32 = 0;
    let mut i = a;
    while i < hi
        invariant
            lo <= a <= i <= hi <= s@.len(),
            d == s@.subrange(a as int, hi as int),
            t == s@.subrange(lo as int, hi as int),
            d == unsigned_digits(t),
            forall|k: int| a <= k < i ==> is_digit(#[trigger] s@[k]),
            v == (if digits_value(s@.subrange(a as int, i as int)) < 256 {
                digits_value(s@.subrange(a as int, i as int))
            } else {
                256
            }),
        decreases hi - i,
    {
        let c = s.get_char(i);
        if !('0' <= c && c <= '9') {
            assert(d[i - a] == c);
            assert(!is_digit(d[i - a]));
            return None;
        }
        let digit = (c as u32) - 0x30;
        assert(s@.subrange(a as int, i + 1).drop_last() =~= s@.subrange(a as int, i as int));
        v = v * 10 + digit;
        if v > 256 {
            v = 256;
        }
        i = i + 1;
    }
    assert(d =~= s@.subrange(a as int, i as int));
    assert forall|k: int| 0 <= k < d.len() implies is_digit(#[trigger] d[k]) by {
        assert(d[k] == s@[a + k]);
    }
    if v > 255 {
        None
    } else {
        Some(v as u8)
    }
}

/// "row,col" → (row, col): split at the first comma, each side trimmed and read as a `u8`.
pub fn parse_matrix(s: &str) -> (r: Option<(u8, u8)>)
    ensures
        r == matrix_of(s@),
{
    let n = s.unicode_len();
    let p = find_first(s, ',');
    if p >= n {
        return None;
    }
    let (a, b) = trim_range(s, 0, p);
    let (c, d) = trim_range(s, p + 1, n);
    assert(s@.subrange(0, p as int) =~= s@.take(p as int));
    assert(s@.subrange(p + 1, n as int) =~= s@.skip(p + 1));
    let r = match parse_u8_range(s, a, b) {
        Some(v) => v,
        None => return None,
    };
    let c = match parse_u8_range(s, c, d) {
        Some(v) => v,
        None => return None,
    };
    Some((r, c))
}


// ---- layout -----------------------------------------------------------------

/// `a + b`, held at the bounds of `i64`.
pub open spec fn sat_add(a: i64, b: i64) -> i64 {
    if a + b > i64::MAX {
        i64::MAX
    } else if a + b < i64::MIN {
        i64::MIN
    } else {
        (a + b) as i64
    }
}

/// `a + b`, held at the bounds of `i64`.
pub fn saturating_add(a: i64, b: i64) -> (r: i64)
    ensures
        r == sat_add(a, b),
{
    if b > 0 && a > i64::MAX - b {
        i64::MAX
    } else if b < 0 && a < i64::MIN - b {
        i64::MIN
    } else {
        a + b
    }
}

/// The cursor inside a row: (x, y, w, h) of the next key, and the keys so far.
pub type Cursor = (i64, i64, i64, i64, Seq<Key>);

/// One item's effect on the cursor.
pub open spec fn walk_item(st: Cursor, item: Item) -> Cursor {
    let (x, y, w, h, keys) = st;
    match item {
        Item::Props { x: ox, y: oy, w: ow, h: oh } => (
            match ox {
                Some(v) => sat_add(x, v),
                None => x,
            },
            match oy {
                Some(v) => sat_add(y, v),
                None => y,
            },
            match ow {
                Some(v) => v,
                None => w,
            },
            match oh {
                Some(v) => v,
                None => h,
            },
            keys,
        ),
        Item::Label(label) => {
            let keys = match matrix_of(first_line(label@)) {
                Some((r, c)) => keys.push(Key { x, y, w, h, row: r, col: c }),
                None => keys,
            };
            (sat_add(x, w), y, UNIT, UNIT, keys)
        },
        Item::Other => st,
    }
}

/// The cursor after the items of a row, in order.
pub open spec fn walk_items(items: Seq<Item>, st: Cursor) -> Cursor
    decreases items.len(),
{
    if items.len() == 0 {
        st
    } else {
        walk_item(walk_items(items.drop_last(), st), items.last())
    }
}

/// (y, keys) after the rows, in order: each array row starts at x = 0 with a
/// 1u × 1u key size and moves y down by 1u; other rows are skipped.
pub open spec fn walk_rows(rows: Seq<Row>, y: i64, keys: Seq<Key>) -> (i64, Seq<Key>)
    decreases rows.len(),
{
    if rows.len() == 0 {
        (y, keys)
    } else {
        let (y0, k0) = walk_rows(rows.drop_last(), y, keys);
        match rows.last() {
            Row::Items(items) => {
                let st = walk_items(items@, (0, y0, UNIT, UNIT, k0));
                (sat_add(st.1, UNIT), st.4)
            },
            Row::NotArray => (y0, k0),
        }
    }
}

/// The keys of a KLE keymap (empty when the keymap is not an array).
pub open spec fn layout(keymap: Option<Seq<Row>>) -> Seq<Key> {
    match keymap {
        Some(rows) => walk_rows(rows, 0, Seq::empty()).1,
        None => Seq::empty(),
    }
}

/// The keymap as plain values.
pub open spec fn keymap_view(keymap: &Option<Vec<Row>>) -> Option<Seq<Row>> {
    match keymap {
        Some(rows) => Some(rows@),
        None => None,
    }
}

/// Walks one row, pushing its keys onto `keys`; returns the cursor's y after the row's items.
fn walk_row(items: &Vec<Item>, y: i64, keys: &mut Vec<Key>) -> (y_out: i64)
    ensures
        ({
            let st = walk_items(items@, (0, y, UNIT, UNIT, old(keys)@));
            y_out == st.1 && final(keys)@ == st.4
        }),
{
    let mut x: i64 = 0;
    let mut y: i64 = y;
    let mut w: i64 = UNIT;
    let mut h: i64 = UNIT;
    let ghost start: Cursor = (0, y, UNIT, UNIT, keys@);
    let mut i: usize = 0;
    while i < items.len()
        invariant
            0 <= i <= items@.len(),
            start == (0i64, start.1, UNIT, UNIT, old(keys)@),
            walk_items(items@.take(i as int), start) == (x, y, w, h, keys@),
        decreases items.len() - i,
    {
        assert(items@.take(i + 1).drop_last() =~= items@.take(i as int));
        match &items[i] {
            Item::Props { x: ox, y: oy, w: ow, h: oh } => {
                if let Some(v) = ox {
                    x = saturating_add(x, *v);
                }
                if let Some(v) = oy {
                    y = saturating_add(y, *v);
                }
                if let Some(v) = ow {
                    w = *v;
                }
                if let Some(v) = oh {
                    h = *v;
                }
            },
            Item::Label(label) => {
                let n = find_first(label.as_str(), '\n');
                let first = label.as_str().substring_char(0, n);
                assert(first@ =~= first_line(label@));
                if let Some((r, c)) = parse_matrix(first) {
                    keys.push(Key { x, y, w, h, row: r, col: c });
                }
                x = saturating_add(x, w);
                w = UNIT;
                h = UNIT;
            },
            Item::Other => {},
        }
        i = i + 1;
    }
    assert(items@.take(i as int) =~= items@);
    y
}

/// Parse a KLE keymap into positioned keys (units: `UNIT` = 1u), in reading order.
pub fn parse(keymap: &Option<Vec<Row>>) -> (keys: Vec<Key>)
    ensures
        keys@ == layout(keymap_view(keymap)),
{
    let mut keys: Vec<Key> = Vec::new();
    let rows = match keymap {
        Some(r) => r,
        None => return keys,
    };
    let mut y: i64 = 0;
    let mut i: usize = 0;
    while i < rows.len()
        invariant
            0 <= i <= rows@.len(),
            keymap_view(keymap) == Some(rows@),
            walk_rows(rows@.take(i as int), 0, Seq::empty()) == (y, keys@),
        decreases rows.len() - i,
    {
        assert(rows@.take(i + 1).drop_last() =~= rows@.take(i as int));
        match &rows[i] {
            Row::Items(items) => {
                let y_end = walk_row(items, y, &mut keys);
                y = saturating_add(y_end, UNIT);
            },
            Row::NotArray => {},
        }
        i = i + 1;
    }
    assert(rows@.take(i as int) =~= rows@);
    keys
}


// ---- laws -------------------------------------------------------------------

proof fn lemma_decimal(n: nat)
    ensures
        decimal(n).len() > 0,
        all_digits(decimal(n)),
        digits_value(decimal(n)) == n,
    decreases n,
{
    if n < 10 {
        assert(decimal(n).last() as int == 0x30 + n);
        assert(decimal(n).drop_last() =~= Seq::<char>::empty());
        assert(digits_value(decimal(n).drop_last()) == 0);
    } else {
        lemma_decimal(n / 10);
        let d = decimal(n);
        assert(d.drop_last() =~= decimal(n / 10));
        assert(d.last() as int == 0x30 + n % 10);
        assert(n == (n / 10) * 10 + n % 10);
        assert(digits_value(d) == digits_value(decimal(n / 10)) * 10 + n % 10);
        assert forall|i: int| 0 <= i < d.len() implies is_digit(#[trigger] d[i]) by {
            if i < d.len() - 1 {
                assert(d[i] == decimal(n / 10)[i]);
            }
        }
    }
}

proof fn lemma_find_char_concat(a: Seq<char>, b: Seq<char>, c: char)
    requires
        forall|i: int| 0 <= i < a.len() ==> a[i] != c,
    ensures
        find_char(a + b, c) == a.len() + find_char(b, c),
    decreases a.len(),
{
    if a.len() > 0 {
        assert((a + b).drop_first() =~= a.drop_first() + b);
        lemma_find_char_concat(a.drop_first(), b, c);
    } else {
        assert(a + b =~= b);
    }
}

proof fn lemma_digits_read_back(d: Seq<char>, n: nat)
    requires
        d.len() > 0,
        all_digits(d),
        digits_value(d) == n,
        n <= 255,
    ensures
        trim(d) == d,
        parse_u8(trim(d)) == Some(n as u8),
{
    assert(is_digit(d[0]));
    assert(is_digit(d.last()));
    assert(d.skip(0) =~= d);
    assert(d.take(d.len() as int) =~= d);
}

/// Law: a matrix label written as `row,col` in decimal reads back as
/// `(row, col)`.
pub proof fn matrix_label_roundtrip(row: u8, col: u8)
    ensures
        matrix_of(decimal(row as nat) + seq![','] + decimal(col as nat)) == Some((row, col)),
{
    let a = decimal(row as nat);
    let b = decimal(col as nat);
    lemma_decimal(row as nat);
    lemma_decimal(col as nat);
    let s = a + seq![','] + b;
    assert forall|i: int| 0 <= i < a.len() implies a[i] != ',' by {
        assert(is_digit(a[i]));
    }
    lemma_find_char_concat(a, seq![','] + b, ',');
    assert(s =~= a + (seq![','] + b));
    assert(find_char(seq![','] + b, ',') == 0);
    assert(s.take(a.len() as int) =~= a);
    assert(s.skip(a.len() as int + 1) =~= b);
    lemma_digits_read_back(a, row as nat);
    lemma_digits_read_back(b, col as nat);
}

/// Law: a string item whose first line is `row,col` in decimal places a key
/// wired to (row, col) at the cursor, with the size set by the items before it.
pub proof fn label_places_key(st: Cursor, label: String, row: u8, col: u8)
    requires
        first_line(label@) == decimal(row as nat) + seq![','] + decimal(col as nat),
    ensures
        walk_item(st, Item::Label(label)).4 == st.4.push(
            Key { x: st.0, y: st.1, w: st.2, h: st.3, row, col },
        ),
{
    matrix_label_roundtrip(row, col);
}

/// Law: a string item moves the cursor right by the key's width and sets the
/// size back to 1u × 1u: sizes apply to the next key only.
pub proof fn size_applies_to_next_key_only(st: Cursor, label: String)
    ensures
        walk_item(st, Item::Label(label)).0 == sat_add(st.0, st.2),
        walk_item(st, Item::Label(label)).1 == st.1,
        walk_item(st, Item::Label(label)).2 == UNIT,
        walk_item(st, Item::Label(label)).3 == UNIT,
{
}

/// The cursor's y after a row's items that start at `y`: only the `y`
/// properties move it, each by its offset.
pub open spec fn items_y(items: Seq<Item>, y: i64) -> i64
    decreases items.len(),
{
    if items.len() == 0 {
        y
    } else {
        let prev = items_y(items.drop_last(), y);
        match items.last() {
            Item::Props { y: Some(v), .. } => sat_add(prev, v),
            _ => prev,
        }
    }
}

/// Law: within a row, the cursor's y moves by the `y` offsets of the row's
/// objects and by nothing else (keys, sizes and x offsets leave it alone).
pub proof fn row_items_move_y_by_offsets(items: Seq<Item>, st: Cursor)
    ensures
        walk_items(items, st).1 == items_y(items, st.1),
    decreases items.len(),
{
    if items.len() > 0 {
        row_items_move_y_by_offsets(items.drop_last(), st);
    }
}

/// Law: the next array row starts 1u below where the previous row's cursor
/// ended, so a `y` offset inside a row moves every later row down with it;
/// rows that are not arrays leave y alone.
pub proof fn rows_start_below_previous_cursor(rows: Seq<Row>, row: Row, y: i64, keys: Seq<Key>)
    ensures
        walk_rows(rows.push(row), y, keys).0 == (match row {
            Row::Items(items) => sat_add(items_y(items@, walk_rows(rows, y, keys).0), UNIT),
            Row::NotArray => walk_rows(rows, y, keys).0,
        }),
        walk_rows(rows.push(row), y, keys).1.len() >= walk_rows(rows, y, keys).1.len(),
{
    let prev = walk_rows(rows, y, keys);
    assert(rows.push(row).drop_last() =~= rows);
    assert(rows.push(row).last() == row);
    if let Row::Items(items) = row {
        row_items_move_y_by_offsets(items@, (0, prev.0, UNIT, UNIT, prev.1));
        lemma_walk_items_keys_grow(items@, (0, prev.0, UNIT, UNIT, prev.1));
    }
}

proof fn lemma_walk_items_keys_grow(items: Seq<Item>, st: Cursor)
    ensures
        walk_items(items, st).4.len() >= st.4.len(),
    decreases items.len(),
{
    if items.len() > 0 {
        lemma_walk_items_keys_grow(items.drop_last(), st);
    }
}

/// Law: a key is placed at the cursor's y, which is the row's start moved
/// by the `y` offsets of the objects before it in its row.
pub proof fn key_y_is_row_start_plus_offsets(items: Seq<Item>, st: Cursor, n: int)
    requires
        0 <= n < items.len(),
        items[n] is Label,
        matrix_of(first_line(items[n]->Label_0@)) is Some,
    ensures
        walk_items(items.take(n + 1), st).4.last().y == items_y(items.take(n), st.1),
{
    row_items_move_y_by_offsets(items.take(n), st);
    assert(items.take(n + 1).drop_last() =~= items.take(n));
}

} // verus!
