use bitdmx::channel_groups::{ChannelGroupValue, FadeCommand, FadeStart, Moving2D, Single, RGB, RGBA};
use bitdmx::fade_curve::FadeCurve;
use bitdmx::fixture::{ChannelGroup, Fixture};
use bitdmx::stage::{scale_level, scale_values, FrontendData, Stage, StageAction};
use bitdmx::switch::Switch;

fn value(levels: Vec<u8>, time_in: usize, time_out: usize) -> ChannelGroupValue {
    (levels, (FadeCurve::Linear, time_in), (FadeCurve::Squared, time_out))
}

fn fades(actions: Vec<StageAction>) -> Vec<FadeCommand> {
    actions
        .into_iter()
        .map(|a| match a {
            StageAction::Fade(f) => f,
            StageAction::Frame(..) => panic!("unexpected frame"),
        })
        .collect()
}

fn stage_with_two_fixtures() -> Stage {
    let mut stage = Stage::new();
    let f0 = Fixture::new("PAR".to_string(), vec![ChannelGroup::Single(Single::new(1))]);
    let f1 = Fixture::new(
        "LED".to_string(),
        vec![ChannelGroup::RGB(RGB::new(2, 3, 4)), ChannelGroup::Moving2D(Moving2D::new(5, 6))],
    );
    assert_eq!(stage.add_fixture(f0), 0);
    assert_eq!(stage.add_fixture(f1), 1);
    stage
}

#[test]
fn frontend_data_new_is_empty() {
    let d = FrontendData::new();
    assert_eq!(d.max_dmx_address, 0);
    assert!(d.fixtures.is_empty() && d.switches.is_empty() && d.chasers.is_empty());
}

#[test]
fn switches_join_their_chasers() {
    let mut stage = stage_with_two_fixtures();
    let a = stage.add_switch(Switch::new("a".to_string(), vec![], "main".to_string(), 0));
    let b = stage.add_switch(Switch::new("b".to_string(), vec![], "other".to_string(), 0));
    let c = stage.add_switch(Switch::new("c".to_string(), vec![], "main".to_string(), 0));
    assert_eq!((a, b, c), (0, 1, 2));
    assert_eq!(stage.chasers.len(), 2);
    assert_eq!(stage.chasers[0].0, "main");
    assert_eq!(stage.chasers[0].1, vec![0, 2]);
    assert_eq!(stage.chasers[1].0, "other");
    assert_eq!(stage.chasers[1].1, vec![1]);
}

#[test]
fn switching_on_fades_groups_to_scaled_levels() {
    let mut stage = stage_with_two_fixtures();
    let id = stage.add_switch(Switch::new(
        "warm".to_string(),
        vec![((0, 0), value(vec![200], 500, 700)), ((1, 0), value(vec![255, 100, 0], 1000, 300))],
        "main".to_string(),
        0,
    ));
    stage.set_switch(id, 255);
    let f = fades(stage.take_pending());
    assert_eq!(f.len(), 2);
    assert_eq!(f[0].addresses, vec![1]);
    assert_eq!(f[0].targets, vec![200]);
    assert_eq!(f[0].start, FadeStart::RequestedLevel);
    assert_eq!(f[0].time, 500);
    assert!(matches!(f[0].curve, FadeCurve::Linear));
    assert_eq!(f[1].addresses, vec![2, 3, 4]);
    assert_eq!(f[1].targets, vec![255, 100, 0]);
    assert_eq!(f[1].start, FadeStart::BusLevel);
    assert_eq!(stage.switches[id].dimmer_value, 255);
    assert!(stage.take_pending().is_empty());
}

#[test]
fn dimmer_scales_levels() {
    let mut stage = stage_with_two_fixtures();
    let id = stage.add_switch(Switch::new(
        "half".to_string(),
        vec![((1, 1), value(vec![255, 100], 10, 20))],
        "main".to_string(),
        0,
    ));
    stage.set_switch(id, 128);
    let f = fades(stage.take_pending());
    assert_eq!(f[0].addresses, vec![5, 6]);
    assert_eq!(f[0].targets, vec![128, 50]);
}

#[test]
fn switching_off_falls_back_to_previous_switch() {
    let mut stage = stage_with_two_fixtures();
    let a = stage.add_switch(Switch::new("a".to_string(), vec![((0, 0), value(vec![100], 1, 2))], "x".to_string(), 0));
    let b = stage.add_switch(Switch::new("b".to_string(), vec![((0, 0), value(vec![200], 3, 4))], "y".to_string(), 0));
    stage.set_switch(a, 255);
    stage.set_switch(b, 255);
    let f = fades(stage.take_pending());
    assert_eq!(f.iter().map(|c| c.targets[0]).collect::<Vec<_>>(), vec![100, 200]);
    // b held the group last: letting go fades back to a's level along a's fade-out
    stage.set_switch(b, 0);
    let f = fades(stage.take_pending());
    assert_eq!(f.len(), 1);
    assert_eq!(f[0].targets, vec![100]);
    assert_eq!(f[0].time, 2);
    assert!(matches!(f[0].curve, FadeCurve::Squared));
    // a lets go: dark, along its own fade-out
    stage.set_switch(a, 0);
    let f = fades(stage.take_pending());
    assert_eq!(f.len(), 1);
    assert_eq!(f[0].targets, vec![0]);
    assert_eq!(f[0].time, 2);
}

#[test]
fn switching_off_a_covered_switch_does_not_fade() {
    let mut stage = stage_with_two_fixtures();
    let a = stage.add_switch(Switch::new("a".to_string(), vec![((0, 0), value(vec![100], 1, 2))], "x".to_string(), 0));
    let b = stage.add_switch(Switch::new("b".to_string(), vec![((0, 0), value(vec![200], 3, 4))], "y".to_string(), 0));
    stage.set_switch(a, 255);
    stage.set_switch(b, 255);
    stage.take_pending();
    stage.set_switch(a, 0);
    assert!(stage.take_pending().is_empty());
    stage.set_switch(b, 0);
    let f = fades(stage.take_pending());
    assert_eq!(f[0].targets, vec![0]);
    assert_eq!(f[0].time, 4);
}

#[test]
fn off_undoes_on() {
    let mut stage = stage_with_two_fixtures();
    let a = stage.add_switch(Switch::new("a".to_string(), vec![((1, 0), value(vec![1, 2, 3], 1, 2))], "x".to_string(), 0));
    let b = stage.add_switch(Switch::new(
        "b".to_string(),
        vec![((1, 0), value(vec![9, 9, 9], 1, 2)), ((0, 0), value(vec![5], 1, 1))],
        "y".to_string(),
        0,
    ));
    stage.set_switch(a, 255);
    let held_before: Vec<usize> = match &stage.fixtures[1].channel_groups[0] {
        ChannelGroup::RGB(g) => g.active_switches.iter().map(|e| e.0).collect(),
        _ => unreachable!(),
    };
    stage.set_switch(b, 77);
    stage.set_switch(b, 0);
    let held_after: Vec<usize> = match &stage.fixtures[1].channel_groups[0] {
        ChannelGroup::RGB(g) => g.active_switches.iter().map(|e| e.0).collect(),
        _ => unreachable!(),
    };
    assert_eq!(held_before, held_after);
    match &stage.fixtures[0].channel_groups[0] {
        ChannelGroup::Single(g) => assert!(g.active_switches.is_empty()),
        _ => unreachable!(),
    }
}

#[test]
fn deactivating_a_group_switches_off_the_others() {
    let mut stage = stage_with_two_fixtures();
    let a = stage.add_switch(Switch::new("a".to_string(), vec![((0, 0), value(vec![10], 1, 1))], "main".to_string(), 0));
    let b = stage.add_switch(Switch::new("b".to_string(), vec![((1, 1), value(vec![20, 30], 1, 1))], "main".to_string(), 0));
    let c = stage.add_switch(Switch::new("c".to_string(), vec![], "main".to_string(), 0));
    stage.set_switch(a, 255);
    stage.set_switch(b, 255);
    stage.take_pending();
    let others = stage.deactivate_group_of_switch(c);
    assert_eq!(others, vec![a, b]);
    assert_eq!(stage.switches[a].dimmer_value, 0);
    assert_eq!(stage.switches[b].dimmer_value, 0);
    let f = fades(stage.take_pending());
    assert_eq!(f.len(), 2);
    assert_eq!(f[0].targets, vec![0]);
    assert_eq!(f[1].targets, vec![0, 0]);
    let others = stage.deactivate_group_of_switch(a);
    assert_eq!(others, vec![b, c]);
}

#[test]
fn channels_are_created_on_demand() {
    let mut stage = Stage::new();
    assert_eq!(stage.get_channel_object(3), 2);
    assert_eq!(stage.channels.len(), 3);
    assert_eq!(stage.channels[2].address, 3);
    let frames: Vec<(u16, u8)> = stage
        .take_pending()
        .into_iter()
        .map(|a| match a {
            StageAction::Frame(x, y) => (x, y),
            _ => panic!(),
        })
        .collect();
    assert_eq!(frames, vec![(1, 0), (2, 0), (3, 0)]);
    assert_eq!(stage.get_channel_object(2), 1);
    assert_eq!(stage.channels.len(), 3);
    assert!(stage.take_pending().is_empty());
}

#[test]
fn frontend_data_describes_the_stage() {
    let mut stage = stage_with_two_fixtures();
    stage.get_channel_object(6);
    stage.add_switch(Switch::new("s".to_string(), vec![((1, 1), value(vec![1, 2], 3, 4))], "main".to_string(), 9));
    let d = stage.get_frontend_data();
    assert_eq!(d.max_dmx_address, 6);
    assert_eq!(d.fixtures.len(), 2);
    assert_eq!(d.fixtures[1].name, "LED");
    assert_eq!(d.fixtures[1].channel_groups, vec![(1, vec![2, 3, 4]), (3, vec![5, 6])]);
    assert_eq!(d.fixtures[0].channel_groups, vec![(0, vec![1])]);
    assert_eq!(d.switches.len(), 1);
    assert_eq!(d.switches[0].channel_groups[0].0, "[1,1]");
    assert_eq!(d.switches[0].before_chaser, 9);
    assert_eq!(d.chasers, vec![("main".to_string(), vec![0])]);
}

#[test]
fn rgba_group_covers_four_channels() {
    let mut stage = Stage::new();
    stage.add_fixture(Fixture::new("Wash".to_string(), vec![ChannelGroup::RGBA(RGBA::new(10))]));
    let id = stage.add_switch(Switch::new("w".to_string(), vec![((0, 0), value(vec![1, 2, 3, 4, 5], 0, 0))], "m".to_string(), 0));
    stage.set_switch(id, 255);
    let f = fades(stage.take_pending());
    assert_eq!(f[0].addresses, vec![10, 11, 12, 13]);
    assert_eq!(f[0].targets, vec![1, 2, 3, 4]);
}

#[test]
fn scaling_truncates_the_double_product() {
    assert_eq!(scale_level(51, 155), 30);
    assert_eq!(scale_level(204, 155), 123);
    assert_eq!(scale_level(52, 155), 31);
    assert_eq!(scale_level(200, 128), 100);
    assert_eq!(scale_level(77, 255), 77);
    assert_eq!(scale_level(77, 0), 0);
    for a in 0..=255u8 {
        for d in 0..=255u8 {
            assert_eq!(scale_level(a, d), (a as f64 * (d as f64 / 255.0)) as u8);
        }
    }
    assert_eq!(scale_values(&vec![255, 100, 51], 155), vec![155, 60, 30]);
}

#[test]
fn every_switch_sits_once_in_its_own_chaser() {
    let mut stage = Stage::new();
    let names = ["a", "b", "a", "c", "b", "a"];
    for (i, n) in names.iter().enumerate() {
        let id = stage.add_switch(Switch::new(format!("s{}", i), vec![], n.to_string(), 0));
        assert_eq!(id, i);
    }
    assert_eq!(
        stage.chasers,
        vec![
            ("a".to_string(), vec![0, 2, 5]),
            ("b".to_string(), vec![1, 4]),
            ("c".to_string(), vec![3]),
        ]
    );
    let d = stage.get_frontend_data();
    let mut all: Vec<usize> = d.chasers.iter().flat_map(|c| c.1.clone()).collect();
    all.sort();
    assert_eq!(all, (0..6).collect::<Vec<usize>>());
    for (name, ids) in d.chasers.iter() {
        for id in ids {
            assert_eq!(&d.switches[*id].chaser_id, name);
        }
    }
}
