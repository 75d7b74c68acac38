use bitdmx::channel::Channel;

#[test]
fn new_channel_reports_its_first_frame() {
    let c = Channel::new(7, 42, 10);
    assert_eq!(c.get(), 42);
    assert_eq!(c.value, 42);
    assert_eq!(c.frame(), (7, 42));
    assert!(!c.preheat_state);
    assert!(!c.preheating);
}

#[test]
fn set_then_get_without_preheat() {
    let mut c = Channel::new(3, 0, 0);
    assert_eq!(c.set(120), Some((3, 120)));
    assert_eq!(c.get(), 120);
    assert_eq!(c.value, 120);
    assert_eq!(c.set(120), None);
    assert_eq!(c.get(), 120);
}

#[test]
fn preheat_raises_bus_level() {
    let mut c = Channel::new(1, 0, 50);
    c.activate_preheat();
    assert_eq!(c.set(20), Some((1, 50)));
    assert_eq!(c.get(), 50);
    assert_eq!(c.value, 20);
    assert_eq!(c.set(80), Some((1, 80)));
    assert_eq!(c.get(), 80);
    c.deactivate_preheat();
    assert!(!c.preheat_state);
    assert_eq!(c.set(10), Some((1, 10)));
}

#[test]
fn preheat_fade_keeps_requested_level() {
    let mut c = Channel::new(2, 30, 90);
    c.preheating = true;
    c.preheat_state = true;
    assert_eq!(c.set(60), Some((2, 90)));
    assert_eq!(c.value, 30);
}
