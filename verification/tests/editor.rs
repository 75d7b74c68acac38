use bitdmx::editor::{
    apply_control_message, channel_group_choices, choice_index, clone_switch, insert_clone, move_chaser_in_order,
    move_switch_in_chaser, move_switch_to_chaser, next_switch_index, position_of, previous_switch_index, toggled_level,
    last_active_position, remove_from_order, rename_in_order, visible_chasers, toggle_edit_mode, connection_label,
    EditToggle, flag_index,
};
use bitdmx::fade_curve::FadeCurve;
use bitdmx::fixture::EmptyFixture;
use bitdmx::protocol::decode_message;
use bitdmx::stage::FrontendData;
use bitdmx::switch::JsonSwitch;

#[test]
fn toggle() {
    assert_eq!(toggled_level(0), 255);
    assert_eq!(toggled_level(1), 0);
    assert_eq!(toggled_level(255), 0);
}

#[test]
fn chaser_navigation_wraps() {
    assert_eq!(previous_switch_index(4, Some(0)), 3);
    assert_eq!(previous_switch_index(4, Some(2)), 1);
    assert_eq!(previous_switch_index(4, None), 0);
    assert_eq!(next_switch_index(4, Some(3)), 0);
    assert_eq!(next_switch_index(4, Some(1)), 2);
    assert_eq!(next_switch_index(4, None), 0);
    for i in 0..4 {
        assert_eq!(next_switch_index(4, Some(previous_switch_index(4, Some(i)))), i);
    }
}

#[test]
fn moving_switches_within_a_chaser() {
    let mut l = vec![5, 6, 7];
    assert_eq!(position_of(&l, 6), Some(1));
    assert_eq!(position_of(&l, 9), None);
    move_switch_in_chaser(&mut l, 1, true);
    assert_eq!(l, vec![6, 5, 7]);
    move_switch_in_chaser(&mut l, 0, true);
    assert_eq!(l, vec![6, 5, 7]);
    move_switch_in_chaser(&mut l, 0, false);
    assert_eq!(l, vec![5, 6, 7]);
    move_switch_in_chaser(&mut l, 2, false);
    assert_eq!(l, vec![5, 6, 7]);
    insert_clone(&mut l, 1, 9, true);
    assert_eq!(l, vec![5, 9, 6, 7]);
    insert_clone(&mut l, 3, 8, false);
    assert_eq!(l, vec![5, 9, 6, 7, 8]);
    let mut other = vec![1];
    assert_eq!(move_switch_to_chaser(&mut l, &mut other, 0), 5);
    assert_eq!(l, vec![9, 6, 7, 8]);
    assert_eq!(other, vec![1, 5]);
}

#[test]
fn moving_chasers_in_order() {
    let mut o = vec!["a".to_string(), "b".to_string(), "c".to_string()];
    move_chaser_in_order(&mut o, 2, true);
    assert_eq!(o, vec!["a", "c", "b"]);
    move_chaser_in_order(&mut o, 0, true);
    assert_eq!(o, vec!["a", "c", "b"]);
    move_chaser_in_order(&mut o, 2, false);
    assert_eq!(o, vec!["a", "c", "b"]);
    move_chaser_in_order(&mut o, 0, false);
    assert_eq!(o, vec!["c", "a", "b"]);
}

#[test]
fn group_menu() {
    let fixtures = vec![
        EmptyFixture { channel_groups: vec![(0, vec![1])], name: "PAR".to_string() },
        EmptyFixture { channel_groups: vec![(1, vec![2, 3, 4]), (3, vec![5, 6])], name: "LED".to_string() },
        EmptyFixture { channel_groups: vec![], name: "Empty".to_string() },
    ];
    let c = channel_group_choices(&fixtures);
    let labels: Vec<&str> = c.iter().map(|x| x.label.as_str()).collect();
    assert_eq!(labels, vec!["PAR", "LED:0", "LED:1"]);
    assert_eq!((c[2].fixture, c[2].group), (1, 1));
    assert_eq!(choice_index(&c, 1, 1), 2);
    assert_eq!(choice_index(&c, 0, 0), 0);
    assert_eq!(choice_index(&c, 7, 7), 0);
}

#[test]
fn cloning_switches() {
    let mut s = JsonSwitch::new("Fog".to_string(), "main".to_string());
    s.channel_groups.push(("[0,0]".to_string(), (vec![9], (FadeCurve::Linear, 1), (FadeCurve::Linear, 2))));
    let mut switches = vec![s];
    assert_eq!(clone_switch(&mut switches, 0, None), 1);
    assert_eq!(switches[1].name, "Fog Cloned");
    assert_eq!(switches[1].chaser_id, "main");
    assert_eq!(switches[1].channel_groups[0].0, "[0,0]");
    assert_eq!(clone_switch(&mut switches, 1, Some("side".to_string())), 2);
    assert_eq!(switches[2].name, "Fog Cloned Cloned");
    assert_eq!(switches[2].chaser_id, "side");
}

#[test]
fn control_messages_set_dimmers() {
    let mut d = FrontendData::new();
    d.switches.push(JsonSwitch::new("a".to_string(), "c".to_string()));
    d.switches.push(JsonSwitch::new("b".to_string(), "c".to_string()));
    let mut running = vec![("c".to_string(), false)];
    apply_control_message(&mut d, &mut running, decode_message([1, 0, 1, 42]));
    assert_eq!(d.switches[1].dimmer_value, 42);
    assert_eq!(d.switches[0].dimmer_value, 255);
    assert_eq!(running, vec![("c".to_string(), false)]);
    apply_control_message(&mut d, &mut running, decode_message([3, 0, 0, 9]));
    assert_eq!(d.switches[0].dimmer_value, 255);
    assert_eq!(running, vec![("c".to_string(), false)]);
}

#[test]
fn chaser_messages_set_running_flags() {
    let mut d = FrontendData::new();
    d.switches.push(JsonSwitch::new("a".to_string(), "main".to_string()));
    d.switches.push(JsonSwitch::new("b".to_string(), "side".to_string()));
    let mut running = vec![("side".to_string(), false), ("main".to_string(), false)];
    apply_control_message(&mut d, &mut running, decode_message([2, 0, 0, 255]));
    assert_eq!(running, vec![("side".to_string(), false), ("main".to_string(), true)]);
    apply_control_message(&mut d, &mut running, decode_message([130, 0, 1, 7]));
    assert_eq!(running, vec![("side".to_string(), true), ("main".to_string(), true)]);
    apply_control_message(&mut d, &mut running, decode_message([2, 0, 0, 0]));
    assert_eq!(running, vec![("side".to_string(), true), ("main".to_string(), false)]);
    assert_eq!(d.switches[0].dimmer_value, 255);
    assert_eq!(flag_index(&running, &"main".to_string()), Some(1));
    assert_eq!(flag_index(&running, &"none".to_string()), None);
}

#[test]
fn shown_chasers_follow_local_order() {
    let order = vec!["b".to_string(), "gone".to_string(), "a".to_string()];
    let chasers = vec![("a".to_string(), vec![0]), ("b".to_string(), vec![1]), ("c".to_string(), vec![])];
    assert_eq!(visible_chasers(&order, &chasers), vec!["b".to_string(), "a".to_string()]);
    assert!(visible_chasers(&Vec::new(), &chasers).is_empty());
}

#[test]
fn local_order_rename_and_remove() {
    let mut order = vec!["x".to_string(), "y".to_string(), "x".to_string()];
    rename_in_order(&mut order, &"x".to_string(), &"z".to_string());
    assert_eq!(order, vec!["z", "y", "z"]);
    remove_from_order(&mut order, &"z".to_string());
    assert_eq!(order, vec!["y"]);
    remove_from_order(&mut order, &"q".to_string());
    assert_eq!(order, vec!["y"]);
}

#[test]
fn last_switch_that_is_on() {
    let mut switches: Vec<JsonSwitch> = (0..4).map(|i| JsonSwitch::new(format!("s{}", i), "c".to_string())).collect();
    for s in switches.iter_mut() {
        s.dimmer_value = 0;
    }
    assert_eq!(last_active_position(&switches, &vec![3, 1, 0]), None);
    switches[3].dimmer_value = 10;
    switches[0].dimmer_value = 255;
    assert_eq!(last_active_position(&switches, &vec![3, 1, 0]), Some(2));
    assert_eq!(last_active_position(&switches, &vec![3, 1, 2]), Some(0));
    let chaser = vec![3, 1, 2];
    let p = last_active_position(&switches, &chaser);
    assert_eq!(next_switch_index(chaser.len(), p), 1);
    assert_eq!(previous_switch_index(chaser.len(), p), 2);
}

#[test]
fn edit_mode_button() {
    assert_eq!(toggle_edit_mode(false), EditToggle { edit_state: true, release_edited_switch: true, send_data: false, take_chaser_names: true });
    assert_eq!(toggle_edit_mode(true), EditToggle { edit_state: false, release_edited_switch: true, send_data: true, take_chaser_names: false });
    assert_eq!(connection_label(true), "Connected");
    assert_eq!(connection_label(false), "Disconnected");
}
