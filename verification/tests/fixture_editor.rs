use bitdmx::fixture_editor::{
    close_action, CloseAction, SaveIndicator,
    default_group_values, describe_group, group_from_choice, ChannelGroup, Config, EditorSession, Fixture,
    FixtureTemplate, FixtureWindow, Stage,
};

#[test]
fn empty_configuration() {
    let c = Config::new_empty();
    assert!(c.fixture_templates.is_empty());
    assert_eq!(c.stage.name, "Untitled");
    assert!(c.stage.fixtures.is_empty());
    let t = FixtureTemplate::new_empty();
    assert_eq!(t.name, "Untitled");
    let f = Fixture::new_empty(3);
    assert_eq!((f.channel, f.template_id, f.name.as_str()), (0, 3, "Empty"));
    assert_eq!(Stage::new_empty().name, "Untitled");
    let _w = FixtureWindow::new();
}

#[test]
fn group_types_and_defaults() {
    assert_eq!(default_group_values(0), vec![0]);
    assert_eq!(default_group_values(1), vec![0, 1, 2]);
    assert_eq!(default_group_values(2), vec![0, 1, 2, 3]);
    assert_eq!(default_group_values(3), vec![0, 1]);
    assert_eq!(default_group_values(9), vec![0]);
    assert_eq!(group_from_choice(1, &vec![4, 5, 6]), ChannelGroup::RGB(4, 5, 6));
    assert_eq!(group_from_choice(2, &vec![4, 5, 6, 7]), ChannelGroup::RGBA(4, 5, 6, 7));
    assert_eq!(group_from_choice(3, &vec![8, 9]), ChannelGroup::Moving2D(8, 9));
    assert_eq!(group_from_choice(0, &vec![3, 1]), ChannelGroup::Single(3));
    let (name, channels, kind) = describe_group(ChannelGroup::RGBA(1, 2, 3, 4));
    assert_eq!((name.as_str(), channels, kind), ("RGBA", vec![1, 2, 3, 4], 2));
    let (name, channels, kind) = describe_group(ChannelGroup::Moving2D(7, 8));
    assert_eq!((name.as_str(), channels, kind), ("Moving2D", vec![7, 8], 3));
}

#[test]
fn group_choice_roundtrip() {
    for g in [ChannelGroup::Single(9), ChannelGroup::RGB(1, 2, 3), ChannelGroup::RGBA(4, 3, 2, 1), ChannelGroup::Moving2D(5, 6)] {
        let (_, channels, kind) = describe_group(g);
        assert_eq!(group_from_choice(kind, &channels), g);
    }
}

#[test]
fn editing_session() {
    let mut s = EditorSession::new(Config::new_empty());
    assert_eq!((s.template, s.group, s.group_type, s.group_values.clone()), (None, None, 0, vec![0]));
    s.new_template();
    s.new_template();
    assert_eq!(s.config.fixture_templates.len(), 2);
    s.open_template(1);
    s.new_group();
    s.new_group();
    assert_eq!(s.config.fixture_templates[1].channel_groups, vec![ChannelGroup::Single(0), ChannelGroup::Single(0)]);
    s.open_group(1);
    assert_eq!((s.group, s.group_type, s.group_values.clone()), (Some(1), 0, vec![0]));
    s.choose_group_type(1);
    assert_eq!(s.group_values, vec![0, 1, 2]);
    s.set_group_value(2, 40);
    s.close_group();
    assert_eq!(s.group, None);
    assert_eq!(s.config.fixture_templates[1].channel_groups, vec![ChannelGroup::Single(0), ChannelGroup::RGB(0, 1, 40)]);
    s.open_group(0);
    s.delete_group();
    assert_eq!(s.config.fixture_templates[1].channel_groups, vec![ChannelGroup::RGB(0, 1, 40)]);
    s.open_group(0);
    s.close_group();
    assert_eq!(s.config.fixture_templates[1].channel_groups, vec![ChannelGroup::RGB(0, 1, 40)]);
    s.delete_template();
    assert_eq!((s.template, s.config.fixture_templates.len()), (None, 1));
    assert!(s.config.fixture_templates[0].channel_groups.is_empty());
    s.open_template(0);
    s.close_template();
    assert_eq!(s.template, None);
}

#[test]
fn save_indicator_compares_every_thirtieth_frame() {
    let mut s = SaveIndicator::new();
    assert_eq!((s.frames, s.unsaved), (0, false));
    for i in 1..30 {
        assert!(!s.tick());
        assert_eq!(s.frames, i);
    }
    assert!(s.tick());
    assert_eq!(s.frames, 0);
    s.compared(false);
    assert!(s.unsaved);
    assert_eq!(close_action(s.unsaved), CloseAction::AskToSave);
    s.compared(true);
    assert_eq!(close_action(s.unsaved), CloseAction::Close);
}
