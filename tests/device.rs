use gameboy::device::{Device, HeadlessDevice, Key};

#[test]
fn second_frame_replaces_first_before_update() {
    let mut device = HeadlessDevice::new();
    device.set_frame_buffer(&[1, 2, 3]);
    device.set_frame_buffer(&[7, 8, 9, 10]);
    assert_eq!(device.shown().len(), 0);
    device.update();
    assert_eq!(device.shown(), &vec![7, 8, 9, 10]);
    assert_eq!(device.frames_shown(), 1);
}

#[test]
fn update_without_new_frame_changes_nothing() {
    let mut device = HeadlessDevice::new();
    device.update();
    assert_eq!(device.frames_shown(), 0);
    device.set_frame_buffer(&[4, 5]);
    device.update();
    device.update();
    assert_eq!(device.frames_shown(), 1);
    assert_eq!(device.shown(), &vec![4, 5]);
}

#[test]
fn keys_are_held_independently() {
    let mut device = HeadlessDevice::new();
    let keys = [Key::Up, Key::Down, Key::Left, Key::Right, Key::Backspace, Key::Enter, Key::Z, Key::X];
    for k in keys.iter() {
        assert!(!device.key_down(*k));
    }
    device.set_key(Key::Z, true);
    device.set_key(Key::Enter, true);
    assert!(device.key_down(Key::Z));
    assert!(device.key_down(Key::Enter));
    assert!(!device.key_down(Key::X));
    device.set_key(Key::Z, false);
    assert!(!device.key_down(Key::Z));
    assert!(device.key_down(Key::Enter));
}

#[test]
fn closing_stops_running() {
    let mut device = HeadlessDevice::new();
    assert!(device.running());
    device.close();
    assert!(!device.running());
}

#[test]
fn storing_a_frame_keeps_keys_and_liveness() {
    let mut device = HeadlessDevice::new();
    device.set_key(Key::Up, true);
    device.set_frame_buffer(&[9; 4]);
    device.update();
    assert!(device.key_down(Key::Up));
    assert!(device.running());
    assert_eq!(device.shown(), &vec![9, 9, 9, 9]);
}
