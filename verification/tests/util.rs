use damascene_volume::util::parse_name_json;

#[test]
fn parse_name_json_only_accepts_braced_name() {
    // Canonical JSON form (matches what `wpctl set-default` writes).
    assert_eq!(
        parse_name_json(r#"{"name":"alsa_output.foo"}"#),
        Some("alsa_output.foo"),
    );
    // Whitespace tolerated.
    assert_eq!(
        parse_name_json(r#"{ "name": "alsa_output.foo" }"#),
        Some("alsa_output.foo"),
    );
    // Bare strings are not accepted.
    assert_eq!(parse_name_json("alsa_output.bar"), None);
    assert_eq!(parse_name_json(r#"{"serial":42}"#), None);
    assert_eq!(parse_name_json(""), None);
}
