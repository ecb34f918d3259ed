use damascene_volume::model::{
    AudioClass, AudioSnapshot, Direction, Tab, Volume, MAX_VOLUME_PERCENT,
};
use damascene_volume::text::{
    eq_ignore_ascii_case, find, first_segment, is_before, join3, parse_u32, parse_u64,
    strip_prefix, to_decimal, trim,
};
use damascene_volume::util::{json_escape, name_json, parse_name_json};

#[test]
fn tokens_name_tabs() {
    for tab in Tab::ALL {
        assert_eq!(Tab::from_token(tab.token()), Some(tab));
    }
    assert_eq!(Tab::from_token("Playback"), None);
    assert_eq!(Tab::Outputs.label(), "Output Devices");
}

#[test]
fn volumes_are_limited() {
    assert_eq!(Volume::from_percent(64, true).percent(), 64);
    assert!(Volume::from_percent(64, true).muted);
    assert_eq!(Volume::from_percent(200, false).percent(), MAX_VOLUME_PERCENT);
    let loud = Volume {
        hundredths: 100_000,
        muted: false,
    };
    assert_eq!(loud.percent(), 999);
}

#[test]
fn the_demo_graph_has_every_kind() {
    let mut demo = AudioSnapshot::demo();
    for tab in [Tab::Playback, Tab::Recording, Tab::Outputs, Tab::Inputs] {
        assert!(!demo.nodes_for_tab(tab).is_empty());
    }
    assert!(demo.nodes_for_tab(Tab::Configuration).is_empty());
    assert!(!demo.cards.is_empty());
    let default = demo.default_device(Direction::Output).expect("a default").clone();
    assert!(demo.is_default(&default));
    assert_eq!(
        default.class,
        AudioClass::Device {
            direction: Direction::Output
        }
    );
    demo.node_mut(default.id).expect("there").target = Some("x".into());
    assert_eq!(
        demo.node_with_id(default.id).and_then(|n| n.target.clone()),
        Some("x".into())
    );
    assert!(demo.node_mut(123_456).is_none());
}

#[test]
fn a_stream_is_never_the_default() {
    let mut demo = AudioSnapshot::demo();
    let stream = demo.nodes_for_tab(Tab::Playback)[0].clone();
    demo.default_sink_name = Some(stream.name.clone());
    assert!(!demo.is_default(&stream));
}

#[test]
fn names_need_both_braces() {
    assert_eq!(parse_name_json(r#"{"name":"x""#), None);
    assert_eq!(parse_name_json(r#""name":"x"}"#), None);
    assert_eq!(parse_name_json(r#"{"name":"x"} y"#), None);
    assert_eq!(parse_name_json("{"), None);
    assert_eq!(parse_name_json("{}"), None);
    assert_eq!(parse_name_json(" {\"name\":\"x\"}\n"), Some("x"));
}

#[test]
fn names_are_written_and_read_back() {
    assert_eq!(name_json("alsa"), r#"{"name":"alsa"}"#);
    assert_eq!(parse_name_json(&name_json("alsa.x y")), Some("alsa.x y"));
    assert_eq!(json_escape(r#"a\b"c"#), r#"a\\b\"c"#);
}

#[test]
fn texts_are_taken_apart() {
    assert_eq!(parse_u32("4294967295"), Some(u32::MAX));
    assert_eq!(parse_u32("4294967296"), None);
    assert_eq!(parse_u32("+7"), Some(7));
    assert_eq!(parse_u32("+"), None);
    assert_eq!(parse_u32(""), None);
    assert_eq!(parse_u32("-0"), None);
    assert_eq!(parse_u32(" 1"), None);
    assert_eq!(parse_u64("18446744073709551615"), Some(u64::MAX));
    assert_eq!(parse_u64("18446744073709551616"), None);
    assert_eq!(parse_u64("0000000000000000000000001"), Some(1));
    assert_eq!(to_decimal(u64::MAX), "18446744073709551615");
    assert_eq!(to_decimal(0), "0");
    assert_eq!(trim("\u{2003} a b\t\u{a0}"), "a b");
    assert_eq!(trim(" \n"), "");
    assert_eq!(strip_prefix("üx", "ü"), Some("x"));
    assert_eq!(strip_prefix("ü", "üx"), None);
    assert_eq!(find("aüb", "b"), Some(2));
    assert_eq!(find("a", ""), Some(0));
    assert_eq!(first_segment("7:option:3"), "7");
    assert_eq!(first_segment("7"), "7");
    assert_eq!(join3("a", "ü", "c"), "aüc");
    assert!(eq_ignore_ascii_case("Ab", "aB"));
    assert!(!eq_ignore_ascii_case("Ä", "ä"));
    assert!(is_before("Z", "a") && !is_before("a", "Z"));
    assert!(is_before("a", "ab") && !is_before("ab", "ab"));
}
