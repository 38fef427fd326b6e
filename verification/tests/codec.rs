use kapibara::Codec;

#[test]
fn extension_names_its_codec() {
    assert_eq!(Codec::from_extension("yaml"), Some(Codec::Yaml));
    assert_eq!(Codec::from_extension("json"), Some(Codec::Json));
}

#[test]
fn extension_ignores_case() {
    assert_eq!(Codec::from_extension("YAML"), Some(Codec::Yaml));
    assert_eq!(Codec::from_extension("Yaml"), Some(Codec::Yaml));
    assert_eq!(Codec::from_extension("yAmL"), Some(Codec::Yaml));
    assert_eq!(Codec::from_extension("JSON"), Some(Codec::Json));
    assert_eq!(Codec::from_extension("jSoN"), Some(Codec::Json));
}

#[test]
fn other_extensions_name_none() {
    assert_eq!(Codec::from_extension(""), None);
    assert_eq!(Codec::from_extension("yml"), None);
    assert_eq!(Codec::from_extension("toml"), None);
    assert_eq!(Codec::from_extension("yamls"), None);
    assert_eq!(Codec::from_extension("jsom"), None);
    assert_eq!(Codec::from_extension("ÿaml"), None);
}

#[test]
fn known_extension_is_the_only_candidate() {
    assert_eq!(Codec::candidates(Some("yaml")), vec![Codec::Yaml]);
    assert_eq!(Codec::candidates(Some("JSON")), vec![Codec::Json]);
}

#[test]
fn unknown_or_missing_extension_tries_yaml_then_json() {
    assert_eq!(Codec::candidates(None), vec![Codec::Yaml, Codec::Json]);
    assert_eq!(Codec::candidates(Some("conf")), vec![Codec::Yaml, Codec::Json]);
    assert_eq!(Codec::candidates(Some("")), vec![Codec::Yaml, Codec::Json]);
}
