use bitdmx::channel_groups::ChannelGroupValue;
use bitdmx::fade_curve::FadeCurve;
use bitdmx::switch::{parse_switch_key, JsonSwitch, Switch, ValueCollection};

fn value(levels: Vec<u8>) -> ChannelGroupValue {
    (levels, (FadeCurve::Linear, 100), (FadeCurve::Sin(1), 200))
}

#[test]
fn json_switch_new_is_full() {
    let j = JsonSwitch::new("Untitled".to_string(), "main".to_string());
    assert!(j.channel_groups.is_empty());
    assert_eq!(j.dimmer_value, 255);
    assert_eq!(j.before_chaser, 0);
    assert_eq!(j.chaser_id, "main");
}

#[test]
fn keys_are_written_as_json_arrays() {
    let s = Switch::new("s".to_string(), vec![((3, 14), value(vec![1])), ((0, 0), value(vec![2, 3]))], "c".to_string(), 50);
    assert_eq!(s.dimmer_value, 0);
    let j = s.with_json_hashmap();
    assert_eq!(j.channel_groups[0].0, "[3,14]");
    assert_eq!(j.channel_groups[1].0, "[0,0]");
    assert_eq!(j.channel_groups[1].1 .0, vec![2, 3]);
    assert_eq!(j.before_chaser, 50);
    assert_eq!(j.name, "s");
}

#[test]
fn key_parsing() {
    assert_eq!(parse_switch_key("[3,14]"), Some((3, 14)));
    assert_eq!(parse_switch_key("x12,7y"), Some((12, 7)));
    assert_eq!(parse_switch_key("[+1,2]"), Some((1, 2)));
    assert_eq!(parse_switch_key("[1,2,3]"), None);
    assert_eq!(parse_switch_key("[1]"), None);
    assert_eq!(parse_switch_key(",1]"), None);
    assert_eq!(parse_switch_key("[a,1]"), None);
    assert_eq!(parse_switch_key("[1,]"), None);
    assert_eq!(parse_switch_key(""), None);
}

#[test]
fn json_roundtrip() {
    let s = Switch::new("s".to_string(), vec![((3, 14), value(vec![1])), ((0, 7), value(vec![2, 3]))], "c".to_string(), 5);
    let back = Switch::load_from_json_switch(s.with_json_hashmap());
    assert_eq!(back.channel_groups.len(), 2);
    assert_eq!(back.channel_groups[0].0, (3, 14));
    assert_eq!(back.channel_groups[1].0, (0, 7));
    assert_eq!(back.channel_groups[1].1 .0, vec![2, 3]);
    assert_eq!(back.chaser_id, "c");
    assert_eq!(back.before_chaser, 5);
}

#[test]
fn later_entry_for_same_key_wins() {
    let mut j = JsonSwitch::new("s".to_string(), "c".to_string());
    j.channel_groups.push(("[1,2]".to_string(), value(vec![10])));
    j.channel_groups.push(("[4,4]".to_string(), value(vec![11])));
    j.channel_groups.push(("[+1,2]".to_string(), value(vec![12])));
    let s = Switch::load_from_json_switch(j);
    assert_eq!(s.channel_groups.len(), 2);
    assert_eq!(s.channel_groups[0].0, (1, 2));
    assert_eq!(s.channel_groups[0].1 .0, vec![12]);
    assert_eq!(s.dimmer_value, 255);
}

#[test]
fn value_collection_keeps_levels() {
    let v = ValueCollection::new(vec![((1, 1), value(vec![5]))]);
    assert_eq!(v.channel_groups.len(), 1);
}
