use bitdmx::console::{fader_label, interface_message, mode_choice, mode_choices, Channel, Fixture, Mode, Type, Value};

#[test]
fn mode_names() {
    assert_eq!(Mode::LTP.string(), "LTP");
    assert_eq!(Mode::HTP.string(), "HTP");
    assert_eq!(Mode::ADD.string(), "ADD");
    assert_eq!(Mode::SUB.string(), "SUB");
    assert_eq!(Mode::DEFAULT.string(), "DEFAULT");
}

#[test]
fn value_constructors() {
    assert_eq!(Value::new(Mode::HTP, 7), Value { value: 7, mode: Mode::HTP });
    assert_eq!(Value::on(Mode::ADD), Value { value: 255, mode: Mode::ADD });
    assert_eq!(Value::off(Mode::SUB), Value { value: 0, mode: Mode::SUB });
}

#[test]
fn merge_modes() {
    let mut c = Channel::new(5, "x".to_string());
    assert_eq!(c.set(Value::new(Mode::LTP, 100)), (5, 100));
    assert_eq!(c.set(Value::new(Mode::HTP, 50)), (5, 100));
    assert_eq!(c.set(Value::new(Mode::HTP, 150)), (5, 150));
    assert_eq!(c.set(Value::new(Mode::ADD, 200)), (5, 255));
    assert_eq!(c.set(Value::new(Mode::SUB, 55)), (5, 200));
    assert_eq!(c.set(Value::new(Mode::SUB, 255)), (5, 0));
    assert_eq!(c.set(Value::new(Mode::ADD, 30)), (5, 30));
    assert_eq!(c.set(Value::new(Mode::SUB, 30)), (5, 0));
}

#[test]
fn default_mode_uses_channel_default() {
    let mut c = Channel::new(1, "".to_string());
    c.set(Value::new(Mode::LTP, 80));
    c.default_mode = Mode::HTP;
    assert_eq!(c.set(Value::new(Mode::DEFAULT, 40)), (1, 80));
    c.default_mode = Mode::LTP;
    assert_eq!(c.set(Value::new(Mode::DEFAULT, 40)), (1, 40));
    c.default_mode = Mode::DEFAULT;
    assert_eq!(c.set(Value::new(Mode::DEFAULT, 9)), (1, 9));
}

#[test]
fn fixture_range_in_either_order() {
    let f = Fixture::new(1, 10, "RandomThingy".to_string());
    assert_eq!(f.channels.len(), 10);
    assert_eq!(f.channels[0].out_patch, 1);
    assert_eq!(f.channels[9].out_patch, 10);
    assert_eq!(f.channels[9].name, "9");
    assert_eq!(f.channels[0].name, "0");
    let g = Fixture::new(10, 1, "Down".to_string());
    assert_eq!(g.channels.len(), 10);
    assert_eq!(g.channels[0].out_patch, 10);
    assert_eq!(g.channels[9].out_patch, 19);
    let h = Fixture::new(4, 4, "One".to_string());
    assert_eq!(h.channels.len(), 1);
    assert!(h.channels.iter().all(|c| c.value == 0 && c.default_mode == Mode::LTP && !c.fader_enabled));
}

#[test]
fn typed_fixtures() {
    let f = Fixture::new_with_type(Type::RGB, "LED".to_string(), 11);
    let names: Vec<&str> = f.channels.iter().map(|c| c.name.as_str()).collect();
    assert_eq!(names, vec!["R", "G", "B"]);
    let patches: Vec<usize> = f.channels.iter().map(|c| c.out_patch).collect();
    assert_eq!(patches, vec![11, 12, 13]);
    let s = Fixture::new_with_type(Type::Single, "PAR".to_string(), 14);
    assert_eq!(s.channels.len(), 1);
    assert_eq!(s.channels[0].out_patch, 14);
    assert_eq!(s.channels[0].name, "");
    assert_eq!(s.name, "PAR");
}

#[test]
fn interface_message_text() {
    assert_eq!(interface_message(12, 255), "12c255w");
    assert_eq!(interface_message(0, 0), "0c0w");
}

#[test]
fn fader_follows_level_until_enabled() {
    let mut c = Channel::new(4, "dim".to_string());
    c.set(Value::new(Mode::LTP, 90));
    c.sync_fader();
    assert_eq!(c.fader_value, 90);
    assert_eq!(c.mode_label(), "A");
    c.select_mode(2);
    assert!(c.fader_enabled);
    assert_eq!(c.default_mode, Mode::HTP);
    assert_eq!(c.mode_selected_idx, Some(2));
    assert_eq!(c.mode_label(), "HTP");
    c.set(Value::new(Mode::LTP, 10));
    c.sync_fader();
    assert_eq!(c.fader_value, 90);
    assert_eq!(c.move_fader(90), None);
    assert_eq!(c.move_fader(50), Some((4, 50)));
    assert_eq!(c.fader_value, 50);
    c.select_mode(0);
    assert!(!c.fader_enabled);
    assert_eq!(c.default_mode, Mode::HTP);
}

#[test]
fn mode_list_and_labels() {
    assert_eq!(mode_choices(), vec!["A", "LTP", "HTP", "ADD", "SUB"]);
    assert_eq!(mode_choice(0), None);
    assert_eq!(mode_choice(3), Some(Mode::ADD));
    assert_eq!(mode_choice(4), Some(Mode::SUB));
    assert_eq!(mode_choice(5), None);
    assert_eq!(fader_label(0), "");
    assert_eq!(fader_label(128), "128");
}
