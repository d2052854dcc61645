use stubby::kle::{parse, parse_matrix, Item, Key, Row, UNIT};

fn label(s: &str) -> Item {
    Item::Label(s.to_string())
}

fn props(x: Option<i64>, y: Option<i64>, w: Option<i64>, h: Option<i64>) -> Item {
    Item::Props { x, y, w, h }
}

fn pos(k: &Key) -> (i64, i64, i64, i64, u8, u8) {
    (k.x, k.y, k.w, k.h, k.row, k.col)
}

#[test]
fn matrix_labels() {
    assert_eq!(parse_matrix("0,1"), Some((0, 1)));
    assert_eq!(parse_matrix("4,13"), Some((4, 13)));
    assert_eq!(parse_matrix(" 3 , 14 "), Some((3, 14)));
    assert_eq!(parse_matrix("\t2,\u{3000}7"), Some((2, 7)));
    assert_eq!(parse_matrix("+2,3"), Some((2, 3)));
    assert_eq!(parse_matrix("007,255"), Some((7, 255)));
}

#[test]
fn rejected_matrix_labels() {
    assert_eq!(parse_matrix(""), None);
    assert_eq!(parse_matrix("12"), None);
    assert_eq!(parse_matrix("1;2"), None);
    assert_eq!(parse_matrix("a,b"), None);
    assert_eq!(parse_matrix("1,2,3"), None);
    assert_eq!(parse_matrix("256,0"), None);
    assert_eq!(parse_matrix("0,1000"), None);
    assert_eq!(parse_matrix("-1,0"), None);
    assert_eq!(parse_matrix("+,0"), None);
    assert_eq!(parse_matrix("1,"), None);
    assert_eq!(parse_matrix(",1"), None);
    assert_eq!(parse_matrix("1 2,3"), None);
    assert_eq!(parse_matrix("١,٢"), None);
}

#[test]
fn matrix_labels_round_trip() {
    for r in 0..=255u8 {
        for c in [0u8, 1, 9, 10, 99, 100, 255] {
            assert_eq!(parse_matrix(&format!("{r},{c}")), Some((r, c)));
        }
    }
}

#[test]
fn not_an_array_gives_no_keys() {
    assert!(parse(&None).is_empty());
    assert!(parse(&Some(vec![])).is_empty());
}

#[test]
fn keys_advance_along_a_row() {
    let keymap = Some(vec![Row::Items(vec![label("0,0"), label("0,1"), label("0,2")])]);
    let keys = parse(&keymap);
    let got: Vec<_> = keys.iter().map(pos).collect();
    assert_eq!(
        got,
        vec![
            (0, 0, UNIT, UNIT, 0, 0),
            (UNIT, 0, UNIT, UNIT, 0, 1),
            (2 * UNIT, 0, UNIT, UNIT, 0, 2),
        ]
    );
}

#[test]
fn properties_shape_only_the_next_key() {
    let keymap = Some(vec![
        Row::Items(vec![
            label("0,0"),
            props(Some(250), None, Some(2000), None),
            label("0,1\n\nBackspace"),
            label("0,2"),
        ]),
        Row::Items(vec![
            props(None, Some(500), Some(1500), Some(2000)),
            label("1,0"),
            label("1,1"),
        ]),
    ]);
    let got: Vec<_> = parse(&keymap).iter().map(pos).collect();
    assert_eq!(
        got,
        vec![
            (0, 0, 1000, 1000, 0, 0),
            (1250, 0, 2000, 1000, 0, 1),
            (3250, 0, 1000, 1000, 0, 2),
            (0, 1500, 1500, 2000, 1, 0),
            (1500, 1500, 1000, 1000, 1, 1),
        ]
    );
}

#[test]
fn labels_without_a_matrix_position_take_space() {
    let keymap = Some(vec![Row::Items(vec![
        label("Esc"),
        Item::Other,
        props(None, None, Some(3000), None),
        label(""),
        label("0,3"),
    ])]);
    let got: Vec<_> = parse(&keymap).iter().map(pos).collect();
    assert_eq!(got, vec![(4000, 0, 1000, 1000, 0, 3)]);
}

#[test]
fn rows_that_are_not_arrays_are_skipped() {
    let keymap = Some(vec![
        Row::Items(vec![label("0,0")]),
        Row::NotArray,
        Row::Items(vec![label("1,0")]),
    ]);
    let got: Vec<_> = parse(&keymap).iter().map(pos).collect();
    assert_eq!(got, vec![(0, 0, 1000, 1000, 0, 0), (0, 1000, 1000, 1000, 1, 0)]);
}

#[test]
fn offsets_saturate() {
    let keymap = Some(vec![Row::Items(vec![
        props(Some(i64::MAX), Some(i64::MIN), None, None),
        props(Some(5), Some(-5), None, None),
        label("0,0"),
    ])]);
    let got: Vec<_> = parse(&keymap).iter().map(pos).collect();
    assert_eq!(got, vec![(i64::MAX, i64::MIN, 1000, 1000, 0, 0)]);
}
