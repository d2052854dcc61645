use stubby::theme::{rgb, theme_for, themes, THEME_COUNT};

#[test]
fn theme_table() {
    let t = themes();
    assert_eq!(t.len(), THEME_COUNT);
    assert_eq!(t[0].name, "Dark");
    assert_eq!(t[0].accent, 0xe04848);
    assert_eq!(t[9].name, "Rosé Pine");
}

#[test]
fn theme_selection_clamps() {
    assert_eq!(theme_for(0).name, "Dark");
    assert_eq!(theme_for(2).name, "Nord");
    assert_eq!(theme_for(9).name, "Rosé Pine");
    assert_eq!(theme_for(10).name, "Rosé Pine");
    assert_eq!(theme_for(usize::MAX).name, "Rosé Pine");
}

#[test]
fn colour_bytes() {
    assert_eq!(rgb(0x123456), (0x12, 0x34, 0x56));
    assert_eq!(rgb(0xe04848), (0xe0, 0x48, 0x48));
    assert_eq!(rgb(0xFF00_0001), (0x00, 0x00, 0x01));
}
