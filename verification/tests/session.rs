use stubby::keymap::Keymap;
use stubby::session::{assign_request, connected_status, offline_status, on_assign_reply, on_reset_reply};
use stubby::via::Command;

#[test]
fn assign_needs_a_selection_and_a_device() {
    assert_eq!(assign_request(None, true, 0, 4).unwrap_err(), "select a key first");
    assert_eq!(assign_request(None, false, 0, 4).unwrap_err(), "select a key first");
    assert_eq!(assign_request(Some((1, 2)), false, 0, 4).unwrap_err(), "not connected");
    match assign_request(Some((1, 2)), true, 3, 0x29) {
        Ok(Command::SetKeycode { layer, row, col, keycode }) => {
            assert_eq!((layer, row, col, keycode), (3, 1, 2, 0x29))
        }
        other => panic!("unexpected {other:?}"),
    }
}

#[test]
fn successful_assign_shows_the_new_keycode() {
    let mut m = Keymap::new();
    m.insert(1, 2, 0x04);
    let status = on_assign_reply(&mut m, 1, 2, 0x29, Ok(()));
    assert_eq!(status, "set [1,2] = Esc");
    assert_eq!(m.keycode_at(1, 2), 0x29);
    let status = on_assign_reply(&mut m, 4, 13, 0x7E28, Ok(()));
    assert_eq!(status, "set [4,13] = 0x7E28");
}

#[test]
fn failed_assign_keeps_the_keymap() {
    let mut m = Keymap::new();
    m.insert(1, 2, 0x04);
    let status = on_assign_reply(&mut m, 1, 2, 0x29, Err("write: gone".to_string()));
    assert_eq!(status, "write failed: write: gone");
    assert_eq!(m.keycode_at(1, 2), 0x04);
}

#[test]
fn reset_replies() {
    assert_eq!(on_reset_reply(Ok(())), ("reset all layers to default".to_string(), true));
    assert_eq!(on_reset_reply(Err("read: io".to_string())), ("reset failed: read: io".to_string(), false));
}

#[test]
fn connection_status() {
    assert_eq!(connected_status(Ok(4), Ok(12)), (4, "VIA proto 12".to_string()));
    assert_eq!(connected_status(Err("x".to_string()), Err("y".to_string())), (1, "VIA proto 0".to_string()));
    assert_eq!(connected_status(Ok(0), Ok(65535)), (0, "VIA proto 65535".to_string()));
    assert_eq!(offline_status("no device"), (1, "OFFLINE — no device".to_string()));
}
