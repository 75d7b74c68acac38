use bitdmx::interface::{insert_to_vector, next_frame, Interface};

#[test]
fn interface_defaults_and_builders() {
    let i = Interface::new();
    assert_eq!(i.baudrate, 115200);
    assert_eq!(i.port, "/dev/ttyACM0");
    let i = i.baudrate(9600).port("COM1".to_string());
    assert_eq!(i.baudrate, 9600);
    assert_eq!(i.port, "COM1");
}

#[test]
fn connection_result() {
    match Interface::new().connect_with(true) {
        Ok(h) => {
            assert!(!h.fake);
            assert_eq!(h.disconnect().baudrate, 115200);
        },
        Err(_) => panic!(),
    }
    match Interface::new().connect_with(false) {
        Err(h) => assert!(h.fake),
        Ok(_) => panic!(),
    }
}

#[test]
fn cache_keeps_latest_value_per_address() {
    let mut cache = Vec::new();
    insert_to_vector(&mut cache, (1, 10));
    insert_to_vector(&mut cache, (2, 20));
    insert_to_vector(&mut cache, (1, 30));
    assert_eq!(cache, vec![(1, 30), (2, 20)]);
    insert_to_vector(&mut cache, (3, 0));
    assert_eq!(cache, vec![(1, 30), (2, 20), (3, 0)]);
}

#[test]
fn frames_leave_oldest_first() {
    let mut cache = vec![(4, 1), (5, 2)];
    assert_eq!(next_frame(&mut cache), Some((4, 1)));
    assert_eq!(next_frame(&mut cache), Some((5, 2)));
    assert_eq!(next_frame(&mut cache), None);
    assert!(cache.is_empty());
}

#[test]
fn interface_loop_writes_latest_levels_in_queue_order() {
    let mut cache = Vec::new();
    let mut written = Vec::new();
    let events: Vec<Option<(u16, u8)>> = vec![
        Some((5, 1)), Some((7, 2)), Some((5, 3)), None, Some((9, 4)), Some((7, 6)), None, None, None, Some((5, 8)), None,
    ];
    let mut received = 0;
    for e in events {
        match e {
            Some(f) => {
                received += 1;
                insert_to_vector(&mut cache, f);
            }
            None => {
                if let Some(f) = next_frame(&mut cache) {
                    written.push(f);
                }
            }
        }
    }
    assert_eq!(written, vec![(5, 3), (7, 6), (9, 4), (5, 8)]);
    assert!(written.len() + cache.len() <= received);
}
