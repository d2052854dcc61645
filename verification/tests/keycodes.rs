use stubby::keycodes::{name_for, palette};

#[test]
fn names_of_special_codes() {
    assert_eq!(name_for(0x0000), "");
    assert_eq!(name_for(0x0001), "▽");
}

#[test]
fn names_of_basic_codes() {
    assert_eq!(name_for(0x04), "A");
    assert_eq!(name_for(0x1D), "Z");
    assert_eq!(name_for(0x1E), "1");
    assert_eq!(name_for(0x27), "0");
    assert_eq!(name_for(0x28), "Enter");
    assert_eq!(name_for(0x31), "\\");
    assert_eq!(name_for(0x39), "Caps");
    assert_eq!(name_for(0x45), "F12");
    assert_eq!(name_for(0x4F), "→");
    assert_eq!(name_for(0x52), "↑");
    assert_eq!(name_for(0xE0), "LCtrl");
    assert_eq!(name_for(0xE7), "RGui");
}

#[test]
fn unknown_codes_fall_back_to_hex() {
    assert_eq!(name_for(0x0002), "0x0002");
    assert_eq!(name_for(0x0032), "0x0032");
    assert_eq!(name_for(0x00AB), "0x00AB");
    assert_eq!(name_for(0x00E8), "0x00E8");
    assert_eq!(name_for(0x5000), "0x5000");
    assert_eq!(name_for(0xFFFF), "0xFFFF");
}

#[test]
fn codes_above_one_byte_are_never_named() {
    // 0x0104 truncates to 0x04 ("A"), but only the one-byte range is named.
    assert_eq!(name_for(0x0104), "0x0104");
    assert_eq!(name_for(0x7E28), "0x7E28");
}

#[test]
fn labels_are_distinct_over_the_whole_range() {
    let mut seen = std::collections::HashSet::new();
    for kc in 0..=u16::MAX {
        assert!(seen.insert(name_for(kc)), "duplicate label for {kc:#06x}");
    }
}

#[test]
fn palette_groups_and_order() {
    let p = palette();
    assert_eq!(p.len(), 85);
    assert_eq!(p[0], ("Letters", "A", 0x04));
    assert_eq!(p[25], ("Letters", "Z", 0x1D));
    assert_eq!(p[26], ("Digits", "1", 0x1E));
    assert_eq!(p[35], ("Digits", "0", 0x27));
    assert_eq!(p[36], ("Symbols", "-", 0x2D));
    // 0x32 has no name and is skipped
    assert!(p.iter().all(|e| e.2 != 0x32));
    assert_eq!(p[47], ("Function", "F1", 0x3A));
    let edit: Vec<u16> = p.iter().filter(|e| e.0 == "Edit").map(|e| e.2).collect();
    assert_eq!(edit, vec![0x28, 0x29, 0x2A, 0x2B, 0x2C, 0x39]);
    let nav: Vec<&str> = p.iter().filter(|e| e.0 == "Nav").map(|e| e.1).collect();
    assert_eq!(nav, vec!["Ins", "Home", "PgUp", "Del", "End", "PgDn", "→", "←", "↓", "↑"]);
    assert_eq!(p[p.len() - 3], ("Modifiers", "RGui", 0xE7));
    assert_eq!(p[p.len() - 2], ("Special", "TRNS ▽", 0x0001));
    assert_eq!(p[p.len() - 1], ("Special", "NO ∅", 0x0000));
}

#[test]
fn palette_keycodes_are_distinct() {
    let p = palette();
    for i in 0..p.len() {
        for j in (i + 1)..p.len() {
            assert_ne!(p[i].2, p[j].2);
        }
    }
}

#[test]
fn palette_labels_match_names() {
    for (group, label, kc) in palette() {
        if group == "Special" {
            assert!(kc <= 1);
        } else {
            assert_eq!(label, name_for(kc));
        }
    }
}
