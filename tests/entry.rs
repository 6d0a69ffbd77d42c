use specjam::naming::{has_fixture_extension, name_of};
use specjam::{Entry, EntryError, Scale, Section, Trace};

fn listing(items: &[&str]) -> Vec<String> {
    items.iter().map(|s| s.to_string()).collect()
}

#[test]
fn test_name_from_file_name() {
    assert_eq!(Entry::file_name("foo-bar.json"), Ok("foo_bar".to_string()));
    assert_eq!(
        Entry::file_name("root/safrole/tiny/enact-epoch-change-1.json"),
        Ok("enact_epoch_change_1".to_string())
    );
    assert_eq!(Entry::file_name("a/x-y.z.json"), Ok("x_y.z".to_string()));
    assert_eq!(Entry::file_name("noext"), Ok("noext".to_string()));
    assert_eq!(Entry::file_name("dir/"), Err(EntryError::InvalidFileName));
    assert_eq!(Entry::file_name(""), Err(EntryError::InvalidFileName));
}

#[test]
fn distinct_files_give_distinct_names() {
    let a = name_of("dir/foo-bar.json").unwrap();
    let b = name_of("dir/foo-baz.json").unwrap();
    assert_ne!(a, b);
    assert_eq!(name_of("dir/foo-bar.json"), name_of("dir/foo-bar.json"));
}

#[test]
fn fixture_extension() {
    assert!(has_fixture_extension("a/b.json"));
    assert!(has_fixture_extension("a.b.json"));
    assert!(!has_fixture_extension("a/b.bin"));
    assert!(!has_fixture_extension("a/.json"));
    assert!(!has_fixture_extension("a.json/b"));
    assert!(!has_fixture_extension("json"));
}

#[test]
fn count_is_the_fixture_files_of_the_listing() {
    let e = Entry::new(
        Section::Codec,
        None,
        listing(&["c/data/a.json", "c/data/a.bin", "c/data/b.json", "c/data/README"]),
    )
    .unwrap();
    assert_eq!(e.count(), 2);
    assert_eq!(e.get(0), Ok("c/data/a.json".to_string()));
    assert_eq!(e.get(1), Ok("c/data/b.json".to_string()));
    assert_eq!(e.get(2), Err(EntryError::IndexOutOfBounds));
}

#[test]
fn count_stays_while_reading() {
    let mut e = Entry::new(
        Section::Trie,
        None,
        listing(&["t/x.json", "t/y.json"]),
    )
    .unwrap();
    assert_eq!(e.next_path(), Some("t/x.json".to_string()));
    assert_eq!(e.count(), 2);
    assert_eq!(e.next_path(), Some("t/y.json".to_string()));
    assert_eq!(e.next_path(), None);
    assert_eq!(e.next_path(), None);
    assert_eq!(e.count(), 2);
}

#[test]
fn empty_directory_gives_no_tests() {
    let e = Entry::new(Section::Safrole, Some(Scale::Tiny), Vec::new()).unwrap();
    assert_eq!(e.count(), 0);
    assert_eq!(e.get(0), Err(EntryError::IndexOutOfBounds));
}

#[test]
fn scale_must_fit_the_section() {
    assert!(matches!(
        Entry::new(Section::Codec, Some(Scale::Tiny), Vec::new()),
        Err(EntryError::ScaleMismatch)
    ));
    assert!(matches!(
        Entry::new(Section::Accumulate, None, Vec::new()),
        Err(EntryError::ScaleMismatch)
    ));
    let e = Entry::new(Section::Accumulate, Some(Scale::Full), Vec::new()).unwrap();
    assert_eq!(e.scale(), Some(Scale::Full));
    assert_eq!(e.section, Section::Accumulate);
}

#[test]
fn lookup_by_normalized_name() {
    let e = Entry::new(
        Section::Trace(Trace::Safrole),
        None,
        listing(&["tr/00000001.json", "tr/block-two.json"]),
    )
    .unwrap();
    assert_eq!(e.test("block_two"), Ok("tr/block-two.json".to_string()));
    assert_eq!(e.test("00000001"), Ok("tr/00000001.json".to_string()));
    assert_eq!(e.test("block-two"), Err(EntryError::NotFound));
}

#[test]
fn codec_end_to_end() {
    let e = Entry::new(
        Section::Codec,
        None,
        listing(&["root/codec/data/foo.json", "root/codec/data/foo.bin"]),
    )
    .unwrap();
    let path = e.get(0).unwrap();
    let bytes: [u8; 4] = [0xDE, 0xAD, 0xBE, 0xEF];
    let t = e.parse(&path, "{\"x\":1}", Some(&bytes)).unwrap();
    assert_eq!(t.name, "foo");
    assert_eq!(t.input, "deadbeef");
    assert_eq!(t.output, "{\"x\":1}");
    assert_eq!(t.scale, None);
    assert_eq!(t.section, Section::Codec);
    assert!(!t.is_full());
}

#[test]
fn parse_carries_scale_and_section() {
    let e = Entry::new(
        Section::Statistics,
        Some(Scale::Full),
        listing(&["s/full/stats-1.json"]),
    )
    .unwrap();
    let t = e
        .parse(
            "s/full/stats-1.json",
            r#"{"input":1,"pre_state":2,"output":3,"post_state":4}"#,
            None,
        )
        .unwrap();
    assert_eq!(t.name, "stats_1");
    assert_eq!(t.scale, Some(Scale::Full));
    assert!(t.is_full());
    assert_eq!(t.input, r#"{"input":1,"pre_state":2}"#);
    assert_eq!(
        e.parse("s/full/", "{}", None).unwrap_err(),
        EntryError::InvalidFileName
    );
    assert_eq!(
        e.parse("s/full/x.json", "{}", None).unwrap_err(),
        EntryError::MissingField
    );
}
