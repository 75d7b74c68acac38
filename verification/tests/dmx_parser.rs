use bitdmx::dmx_parser::{
    as_char, block_to_commands, parse_dmx_text, parse_fixture, parse_scene, strip_parentheses,
    strip_unneccessary_symbols, vec_as_str, DmxParseError, ParsedGroup,
};

fn chars(s: &str) -> Vec<char> {
    s.chars().collect()
}

fn strings(v: &[&str]) -> Vec<String> {
    v.iter().map(|s| s.to_string()).collect()
}

#[test]
fn stripping() {
    let mut v = chars(" a b\nc ");
    strip_unneccessary_symbols(&mut v);
    assert_eq!(v, chars("abc"));
    let mut v = chars("\"PAR\"(x)");
    strip_parentheses(&mut v);
    assert_eq!(v, chars("PAR(x)"));
    assert_eq!(vec_as_str(chars(" Stage \n")), "Stage");
    assert_eq!(as_char("{x"), '{');
}

#[test]
fn commands_end_with_semicolon() {
    assert_eq!(block_to_commands(chars("a; b c ;\n d")), strings(&["a", "bc"]));
    assert_eq!(block_to_commands(chars(";;")), strings(&["", ""]));
    assert!(block_to_commands(chars("no end")).is_empty());
}

#[test]
fn fixture_commands() {
    let g = parse_fixture(&strings(&["single(1)", "preheat(20)", "single(\"3\")", "rgb(1,2,3)", "single(4)single(5)"]), 10).unwrap();
    assert_eq!(g, vec![ParsedGroup::Single(11), ParsedGroup::Single(13), ParsedGroup::Single(14), ParsedGroup::Single(15)]);
    let g = parse_fixture(&strings(&["\tsingle\t(2)"]), 0).unwrap();
    assert_eq!(g, vec![ParsedGroup::Single(2)]);
    let g = parse_fixture(&strings(&["other(a(b))"]), 0).unwrap();
    assert!(g.is_empty());
}

#[test]
fn fixture_command_errors() {
    assert!(matches!(parse_fixture(&strings(&["preheat(1)"]), 0), Err(DmxParseError::PreheatWithoutGroup)));
    assert!(matches!(parse_fixture(&strings(&["single(x)"]), 0), Err(DmxParseError::InvalidGroupChannel)));
    assert!(matches!(parse_fixture(&strings(&["single()"]), 0), Err(DmxParseError::InvalidGroupChannel)));
    assert!(matches!(parse_fixture(&strings(&["a)"]), 0), Err(DmxParseError::UnclosedDelimiter)));
    assert!(matches!(parse_fixture(&strings(&["single(9)"]), 65530), Err(DmxParseError::ChannelOutOfRange)));
}

#[test]
fn scene_commands() {
    let fixtures = vec![("PAR".to_string(), strings(&["single(0)", "single(1)"]))];
    let s = parse_scene(chars("1->\"PAR\"(\"Front left\");\n 5->\"PAR\"(\"Back\");"), &fixtures).unwrap();
    assert_eq!(s.len(), 2);
    assert_eq!(s[0].target_channel, 1);
    assert_eq!(s[0].fixture_type, "PAR");
    assert_eq!(s[0].name, "Frontleft");
    assert_eq!(s[0].channel_groups, vec![ParsedGroup::Single(1), ParsedGroup::Single(2)]);
    assert_eq!(s[1].channel_groups, vec![ParsedGroup::Single(5), ParsedGroup::Single(6)]);
    assert!(matches!(parse_scene(chars("->\"PAR\"(\"x\");"), &fixtures), Err(DmxParseError::MissingChannelId)));
    match parse_scene(chars("a->\"PAR\"(\"x\");"), &fixtures) {
        Err(DmxParseError::InvalidChannelId(t)) => assert_eq!(t, "a"),
        _ => panic!(),
    }
    match parse_scene(chars("x1->Foo(bar);"), &Vec::new()) {
        Err(DmxParseError::InvalidChannelId(t)) => assert_eq!(t, "x1"),
        _ => panic!(),
    }
    match parse_scene(chars("1->\"LED\"(\"x\");"), &fixtures) {
        Err(DmxParseError::UndefinedFixture(t)) => assert_eq!(t, "LED"),
        _ => panic!(),
    }
}

const EXAMPLE: &str = "Fixture {\n    name(\"PAR\");\n    single(0);\n    preheat(30);\n}\n\nFixture {\n    name(\"Dimmer\");\n    single(0);\n    single(1);\n}\n\nStage {\n    1->\"PAR\"(\"Front\");\n    3->\"Dimmer\"(\"Back\");\n}\n";

#[test]
fn whole_description() {
    let f = parse_dmx_text(EXAMPLE).unwrap();
    assert_eq!(f.fixtures.len(), 2);
    assert_eq!(f.fixtures[0].0, "PAR");
    assert_eq!(f.fixtures[0].1, strings(&["single(0)", "preheat(30)"]));
    assert_eq!(f.fixtures[1].0, "Dimmer");
    assert_eq!(f.scenes.len(), 1);
    assert_eq!(f.scenes[0][0].channel_groups, vec![ParsedGroup::Single(1)]);
    assert_eq!(f.scenes[0][1].channel_groups, vec![ParsedGroup::Single(3), ParsedGroup::Single(4)]);
}

#[test]
fn redefinition_replaces() {
    let f = parse_dmx_text("Fixture{name(\"A\");single(0);}Fixture{name(\"A\");single(2);}Stage{1->\"A\"(\"x\");}").unwrap();
    assert_eq!(f.fixtures.len(), 1);
    assert_eq!(f.scenes[0][0].channel_groups, vec![ParsedGroup::Single(3)]);
}

#[test]
fn description_errors() {
    assert!(matches!(parse_dmx_text("}"), Err(DmxParseError::UnexpectedClosingBracket(0))));
    assert!(matches!(parse_dmx_text("Stage { "), Err(DmxParseError::UnclosedBlock)));
    match parse_dmx_text("Thing {}") {
        Err(DmxParseError::UnknownTag(t)) => assert_eq!(t, "Thing"),
        _ => panic!(),
    }
    assert!(matches!(parse_dmx_text("Fixture {}"), Err(DmxParseError::MissingFixtureName)));
    assert!(matches!(parse_dmx_text("Fixture {name();}"), Err(DmxParseError::MissingFixtureName)));
    assert!(matches!(parse_dmx_text("Stage {1->\"X\"(\"y\");}"), Err(DmxParseError::UndefinedFixture(_))));
    assert!(parse_dmx_text("").unwrap().fixtures.is_empty());
}

#[test]
fn closing_bracket_offset_counts_bytes() {
    assert!(matches!(parse_dmx_text("ab}"), Err(DmxParseError::UnexpectedClosingBracket(2))));
    assert!(matches!(parse_dmx_text("\u{e9}}"), Err(DmxParseError::UnexpectedClosingBracket(2))));
    assert!(matches!(parse_dmx_text("\u{20ac}x}"), Err(DmxParseError::UnexpectedClosingBracket(4))));
    assert!(matches!(parse_dmx_text("Stage{}\u{1f600}}"), Err(DmxParseError::UnexpectedClosingBracket(11))));
}

#[test]
fn fixture_name_is_cut_by_bytes() {
    let f = parse_dmx_text("Fixture{\u{e9}name(\"x\");}").unwrap();
    assert_eq!(f.fixtures[0].0, "(\"x");
    let f = parse_dmx_text("Fixture{\u{c4}\u{c4}\u{c4}\u{c4};}").unwrap();
    assert_eq!(f.fixtures[0].0, "");
    let f = parse_dmx_text("Fixture{name(\"L\u{fc}fter\");single(0);}").unwrap();
    assert_eq!(f.fixtures[0].0, "L\u{fc}fter");
    assert!(matches!(parse_dmx_text("Fixture{name\u{20ac}x);}"), Err(DmxParseError::MissingFixtureName)));
    assert!(matches!(parse_dmx_text("Fixture{name(\"\u{20ac});}"), Err(DmxParseError::MissingFixtureName)));
}
