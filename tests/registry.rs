use specjam::{fixture_dir, Registry, Scale, Section, TokenError, Trace};

#[test]
fn fixture_directories() {
    assert_eq!(fixture_dir(Section::Codec, None), "codec/data");
    assert_eq!(fixture_dir(Section::History, None), "history/data");
    assert_eq!(fixture_dir(Section::Pvm, None), "pvm/programs");
    assert_eq!(fixture_dir(Section::Trie, None), "trie");
    assert_eq!(fixture_dir(Section::Trace(Trace::Fallback), None), "traces/fallback");
    assert_eq!(fixture_dir(Section::Safrole, Some(Scale::Full)), "safrole/full");
}

#[test]
fn registry_entry_by_token() {
    let r = Registry::new("root".to_string());
    let l = r.entry("codec", None).unwrap();
    assert_eq!(l.section, Section::Codec);
    assert_eq!(l.scale, None);
    assert_eq!(l.dir, "root/codec/data");
    let l = r.entry("disputes", None).unwrap();
    assert_eq!(l.scale, Some(Scale::Tiny));
    assert_eq!(l.dir, "root/disputes/tiny");
    let l = r.entry("reports", Some(Scale::Full)).unwrap();
    assert_eq!(l.dir, "root/reports/full");
    let l = r.entry("shuffle", Some(Scale::Full)).unwrap();
    assert_eq!(l.scale, None);
    assert_eq!(l.dir, "root/shuffle");
    assert!(matches!(r.entry("history/data", None), Err(TokenError::InvalidSection)));
}
