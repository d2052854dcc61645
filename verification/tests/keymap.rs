use stubby::keymap::{Keymap, LayerRead};
use stubby::via::Command;

#[test]
fn keymap_records_and_replaces() {
    let mut m = Keymap::new();
    assert_eq!(m.get(0, 0), None);
    assert_eq!(m.keycode_at(0, 0), 0);
    m.insert(0, 0, 0x29);
    m.insert(1, 2, 0x04);
    assert_eq!(m.get(0, 0), Some(0x29));
    assert_eq!(m.get(1, 2), Some(0x04));
    assert_eq!(m.get(2, 1), None);
    m.insert(0, 0, 0x7E28);
    assert_eq!(m.keycode_at(0, 0), 0x7E28);
    assert_eq!(m.keycode_at(1, 2), 0x04);
}

fn drive(read: &mut LayerRead, replies: &[Result<u16, &str>]) -> Vec<Command> {
    let mut asked = Vec::new();
    let mut k = 0;
    while let Some(cmd) = read.request() {
        asked.push(cmd);
        read.on_reply(replies[k].map_err(|e| e.to_string()));
        k += 1;
    }
    asked
}

#[test]
fn clean_layer_read() {
    let mut read = LayerRead::start(2, vec![(0, 0), (0, 1), (3, 13)], true);
    let asked = drive(&mut read, &[Ok(0x29), Ok(0x1E), Ok(0xE7)]);
    assert_eq!(asked.len(), 3);
    assert!(matches!(asked[2], Command::GetKeycode { layer: 2, row: 3, col: 13 }));
    let (m, status) = read.finish();
    assert_eq!(status, None);
    assert_eq!(m.get(0, 0), Some(0x29));
    assert_eq!(m.get(0, 1), Some(0x1E));
    assert_eq!(m.get(3, 13), Some(0xE7));
}

#[test]
fn layer_read_stops_at_first_failure() {
    let mut read = LayerRead::start(0, vec![(0, 0), (4, 12), (5, 0)], true);
    let asked = drive(&mut read, &[Ok(0x29), Err("timeout on cmd 0x04"), Ok(0x04)]);
    assert_eq!(asked.len(), 2);
    let (m, status) = read.finish();
    assert_eq!(status.as_deref(), Some("read 4,12 failed: timeout on cmd 0x04"));
    assert_eq!(m.get(0, 0), Some(0x29));
    assert_eq!(m.get(4, 12), None);
    assert_eq!(m.get(5, 0), None);
}

#[test]
fn layer_read_can_skip_failures() {
    let mut read = LayerRead::start(1, vec![(0, 0), (0, 1), (0, 2)], false);
    let asked = drive(&mut read, &[Ok(1), Err("read: io"), Ok(3)]);
    assert_eq!(asked.len(), 3);
    let (m, status) = read.finish();
    assert_eq!(status, None);
    assert_eq!(m.get(0, 0), Some(1));
    assert_eq!(m.get(0, 1), None);
    assert_eq!(m.get(0, 2), Some(3));
}

#[test]
fn empty_layer_read() {
    let read = LayerRead::start(0, vec![], true);
    assert!(read.request().is_none());
    let (m, status) = read.finish();
    assert_eq!(m.get(0, 0), None);
    assert_eq!(status, None);
}
