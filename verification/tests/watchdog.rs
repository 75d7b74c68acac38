use bitdmx::watchdog::{bytes_equal, watchdog_step, WatchdogEvent, WatchdogState};

fn msg(payload: &[u8], from: &[u8]) -> WatchdogEvent {
    WatchdogEvent::Message { payload: payload.to_vec(), from: from.to_vec() }
}

#[test]
fn announcement_from_new_backend_is_fetched_once() {
    let expected = b"0.1.0abc".to_vec();
    let st = WatchdogState { alive: false, server: None };
    let (st, fetch) = watchdog_step(st, &expected, msg(b"0.1.0abc", &[10, 0, 0, 1]));
    assert!(fetch);
    assert_eq!(st, WatchdogState { alive: true, server: Some(vec![10, 0, 0, 1]) });
    let (st, fetch) = watchdog_step(st, &expected, msg(b"0.1.0abc", &[10, 0, 0, 1]));
    assert!(!fetch);
    assert_eq!(st, WatchdogState { alive: true, server: Some(vec![10, 0, 0, 1]) });
    let (st, fetch) = watchdog_step(st, &expected, msg(b"0.1.0abc", &[10, 0, 0, 2]));
    assert!(fetch);
    assert_eq!(st.server, Some(vec![10, 0, 0, 2]));
}

#[test]
fn wrong_message_timeout_and_failed_fetch() {
    let expected = b"v1".to_vec();
    let up = WatchdogState { alive: true, server: Some(vec![1, 2, 3, 4]) };
    let (st, fetch) = watchdog_step(up.clone(), &expected, msg(b"v2", &[1, 2, 3, 4]));
    assert_eq!((st, fetch), (WatchdogState { alive: false, server: None }, false));
    let (st, fetch) = watchdog_step(up.clone(), &expected, WatchdogEvent::Timeout);
    assert_eq!((st, fetch), (WatchdogState { alive: false, server: None }, false));
    let (st, fetch) = watchdog_step(up, &expected, WatchdogEvent::FetchFailed);
    assert_eq!((st, fetch), (WatchdogState { alive: true, server: None }, false));
    assert!(bytes_equal(&vec![1, 2], &vec![1, 2]));
    assert!(!bytes_equal(&vec![1, 2], &vec![1]));
    assert!(!bytes_equal(&vec![1, 2], &vec![1, 3]));
}
