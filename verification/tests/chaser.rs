use bitdmx::chaser::{Chaser, FrontendChaser};
use std::sync::mpsc;

#[test]
fn frontend_chaser_starts_empty_and_running() {
    let c = FrontendChaser::new();
    assert!(c.switches.is_empty());
    assert!(c.current_thread);
}

#[test]
fn removing_a_switch_renumbers_later_ones() {
    let mut c = FrontendChaser { switches: vec![0, 2, 3, 5, 3, 1], current_thread: false };
    c.remove_switch_with_id(3);
    assert_eq!(c.switches, vec![0, 2, 4, 1]);
    assert!(!c.current_thread);
}

#[test]
fn removing_an_absent_later_switch_changes_nothing() {
    let mut c = FrontendChaser { switches: vec![0, 1, 2], current_thread: true };
    c.remove_switch_with_id(7);
    assert_eq!(c.switches, vec![0, 1, 2]);
}

#[test]
fn removing_keeps_ids_in_range() {
    let mut c = FrontendChaser { switches: vec![4, 0, 1, 2, 3], current_thread: true };
    c.remove_switch_with_id(0);
    assert!(c.switches.iter().all(|&x| x < 4));
    assert_eq!(c.switches, vec![3, 0, 1, 2]);
}

#[test]
fn chaser_roundtrip_through_frontend_data() {
    let f = FrontendChaser { switches: vec![3, 1, 2], current_thread: true };
    let c = Chaser::from_frontend_data(f);
    assert!(c.current_thread.is_none());
    let back = c.get_frontend_data();
    assert_eq!(back.switches, vec![3, 1, 2]);
    assert!(!back.current_thread);
}

#[test]
fn stop_chaser_signals_the_thread() {
    let (tx, rx) = mpsc::channel::<()>();
    let mut c = Chaser::new();
    c.switches.push(4);
    c.current_thread = Some(tx);
    assert!(c.get_frontend_data().current_thread);
    let handle = c.stop_chaser().unwrap();
    assert!(c.current_thread.is_none());
    assert!(!c.get_frontend_data().current_thread);
    assert_eq!(c.switches, vec![4]);
    handle.send(()).unwrap();
    assert!(rx.try_recv().is_ok());
}

#[test]
fn stop_chaser_without_thread() {
    let mut c = Chaser::new();
    assert!(c.stop_chaser().is_none());
    assert!(c.current_thread.is_none());
    assert!(c.switches.is_empty());
}

#[test]
fn stop_chaser_after_thread_ended() {
    let (tx, rx) = mpsc::channel::<()>();
    drop(rx);
    let mut c = Chaser { switches: vec![1], current_thread: Some(tx) };
    let handle = c.stop_chaser().unwrap();
    assert!(handle.send(()).is_err());
    assert!(c.current_thread.is_none());
}
