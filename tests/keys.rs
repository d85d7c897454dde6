use chip8::{keypad_value, KeySnapshot, PhysicalKey};

#[test]
fn keypad_table_maps_sixteen_keys() {
    let layout = [
        PhysicalKey::X,
        PhysicalKey::Key1,
        PhysicalKey::Key2,
        PhysicalKey::Key3,
        PhysicalKey::Q,
        PhysicalKey::W,
        PhysicalKey::E,
        PhysicalKey::A,
        PhysicalKey::S,
        PhysicalKey::D,
        PhysicalKey::Z,
        PhysicalKey::C,
        PhysicalKey::Key4,
        PhysicalKey::R,
        PhysicalKey::F,
        PhysicalKey::V,
    ];
    for (v, k) in layout.iter().enumerate() {
        assert_eq!(keypad_value(*k), Some(v as u8));
    }
    assert_eq!(keypad_value(PhysicalKey::Escape), None);
    assert_eq!(keypad_value(PhysicalKey::Other), None);
}

#[test]
fn snapshot_marks_held_keys() {
    let s = KeySnapshot::from_keys(&[PhysicalKey::W, PhysicalKey::Other, PhysicalKey::V]);
    let mut expected = [false; 16];
    expected[0x5] = true;
    expected[0xF] = true;
    assert_eq!(s.held, expected);
    assert!(!s.quit);
    assert_eq!(s.lowest_held(), Some(0x5));
}

#[test]
fn snapshot_of_no_keys_is_empty() {
    let s = KeySnapshot::from_keys(&[]);
    assert_eq!(s.held, [false; 16]);
    assert!(!s.quit);
    assert_eq!(s.lowest_held(), None);
}

#[test]
fn escape_requests_stop() {
    let s = KeySnapshot::from_keys(&[PhysicalKey::Escape]);
    assert!(s.quit);
    assert_eq!(s.held, [false; 16]);
}
