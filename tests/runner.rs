use specjam::runner::plan;
use specjam::{
    process, BinaryRunner, DummyRunner, Runner, Scale, Section, SpawnOptions, Suite, Summary,
    Test, Trace,
};
use std::cell::RefCell;

struct Recorder {
    seen: RefCell<Vec<String>>,
    fail_on: Option<String>,
}

impl Recorder {
    fn new() -> Self {
        Recorder { seen: RefCell::new(Vec::new()), fail_on: None }
    }
}

impl Runner for Recorder {
    fn step(&self, test: &Test) -> Result<(), String> {
        self.seen.borrow_mut().push(test.name.clone());
        if self.fail_on.as_deref() == Some(test.name.as_str()) {
            return Err("mismatch".to_string());
        }
        Ok(())
    }
}

fn test(section: Section, scale: Option<Scale>, name: &str) -> Test {
    Test {
        scale,
        section,
        name: name.to_string(),
        input: "{}".to_string(),
        output: "{}".to_string(),
    }
}

fn mixed() -> Suite {
    let s = Section::Safrole;
    Suite {
        section: s,
        tests: vec![
            test(s, Some(Scale::Full), "f1"),
            test(s, Some(Scale::Tiny), "t1"),
            test(s, Some(Scale::Full), "f2"),
            test(s, Some(Scale::Tiny), "t2"),
        ],
    }
}

#[test]
fn full_run_skips_tiny_tests() {
    let r = Recorder::new();
    let summary = process(&r, Some(Scale::Full), &vec![mixed()]).unwrap();
    assert_eq!(*r.seen.borrow(), vec!["f1", "f2"]);
    assert_eq!(summary, Summary { total: 4, run: 2, skipped: 2 });
}

#[test]
fn tiny_run_skips_full_tests() {
    let r = Recorder::new();
    let summary = process(&r, Some(Scale::Tiny), &vec![mixed()]).unwrap();
    assert_eq!(*r.seen.borrow(), vec!["t1", "t2"]);
    assert_eq!(summary, Summary { total: 4, run: 2, skipped: 2 });
}

#[test]
fn unrequested_scale_runs_tiny_first() {
    let r = Recorder::new();
    let summary = process(&r, None, &vec![mixed()]).unwrap();
    assert_eq!(*r.seen.borrow(), vec!["t1", "t2", "f1", "f2"]);
    assert_eq!(summary, Summary { total: 4, run: 4, skipped: 0 });
}

#[test]
fn unscaled_sections_run_everything_in_order() {
    let s = Section::Codec;
    let suite = Suite {
        section: s,
        tests: vec![test(s, None, "b"), test(s, None, "a")],
    };
    let r = Recorder::new();
    let summary = process(&r, Some(Scale::Full), &vec![suite]).unwrap();
    assert_eq!(*r.seen.borrow(), vec!["b", "a"]);
    assert_eq!(summary, Summary { total: 2, run: 2, skipped: 0 });
}

#[test]
fn empty_section_adds_nothing() {
    let empty = Suite { section: Section::Accumulate, tests: Vec::new() };
    let r = Recorder::new();
    let summary = process(&r, Some(Scale::Full), &vec![empty, mixed()]).unwrap();
    assert_eq!(summary, Summary { total: 4, run: 2, skipped: 2 });
    let alone = Suite { section: Section::Trie, tests: Vec::new() };
    let summary = process(&DummyRunner, None, &vec![alone]).unwrap();
    assert_eq!(summary, Summary { total: 0, run: 0, skipped: 0 });
}

#[test]
fn first_failure_stops_the_run() {
    let r = Recorder { seen: RefCell::new(Vec::new()), fail_on: Some("t2".to_string()) };
    let codec = Suite {
        section: Section::Codec,
        tests: vec![test(Section::Codec, None, "c")],
    };
    let err = process(&r, None, &vec![mixed(), codec]).unwrap_err();
    assert_eq!(err.section, Section::Safrole);
    assert_eq!(err.name, "t2");
    assert_eq!(err.message, "mismatch");
    assert_eq!(err.position, 1);
    assert_eq!(*r.seen.borrow(), vec!["t1", "t2"]);
}

#[test]
fn sections_in_given_order() {
    let a = Suite {
        section: Section::Trace(Trace::Fallback),
        tests: vec![test(Section::Trace(Trace::Fallback), None, "x")],
    };
    let r = Recorder::new();
    process(&r, None, &vec![a, mixed()]).unwrap();
    assert_eq!(*r.seen.borrow(), vec!["x", "t1", "t2", "f1", "f2"]);
}

#[test]
fn options_select_sections() {
    let one = SpawnOptions { scale: None, section: Some(Section::Pvm), skip: Vec::new() };
    assert_eq!(one.sections(), vec![Section::Pvm]);
    let all = SpawnOptions { scale: None, section: None, skip: Vec::new() };
    assert_eq!(all.sections(), Section::all().to_vec());
    let some = SpawnOptions {
        scale: Some(Scale::Tiny),
        section: None,
        skip: vec![Section::Codec, Section::Trace(Trace::Safrole)],
    };
    let got = some.sections();
    assert_eq!(got.len(), 14);
    assert!(!got.contains(&Section::Codec));
    assert!(!got.contains(&Section::Trace(Trace::Safrole)));
    assert_eq!(got[0], Section::Accumulate);
}

#[test]
fn options_run_at_their_scale() {
    let o = SpawnOptions { scale: Some(Scale::Full), section: Some(Section::Safrole), skip: Vec::new() };
    let r = Recorder::new();
    let summary = o.run(&r, vec![mixed()]).unwrap();
    assert_eq!(summary, Summary { total: 4, run: 2, skipped: 2 });
}

#[test]
fn options_run_only_selected_sections() {
    let codec = Suite {
        section: Section::Codec,
        tests: vec![test(Section::Codec, None, "c")],
    };
    let o = SpawnOptions { scale: None, section: None, skip: vec![Section::Safrole] };
    let r = Recorder::new();
    let summary = o.run(&r, vec![mixed(), codec]).unwrap();
    assert_eq!(*r.seen.borrow(), vec!["c"]);
    assert_eq!(summary, Summary { total: 1, run: 1, skipped: 0 });
}

#[test]
fn binary_runner_compares_documents() {
    let b = BinaryRunner::new("/bin/impl".to_string());
    assert_eq!(b.path(), "/bin/impl");
    let mut t = test(Section::Trace(Trace::ReportsL0), None, "blk_1");
    t.output = r#"{"post_state": {"a": 1, "b": [1, 2]}}"#.to_string();
    assert!(b.judge(&t, r#"{"post_state":{"b":[1,2],"a":1}}"#).is_ok());
    assert!(b.judge(&t, "{\n  \"post_state\": {\"a\": 1, \"b\": [1, 2]}\n}").is_ok());
    assert!(b.judge(&t, r#"{"post_state":{"b":[2,1],"a":1}}"#).is_err());
    assert!(b.judge(&t, "not json").is_err());
    assert_eq!(
        b.args(&t),
        vec!["blk_1".to_string(), "traces/reports-l0".to_string()]
    );
}

#[test]
fn plan_follows_scale_and_suite_order() {
    let suites = vec![mixed()];
    assert_eq!(plan(None, &suites), vec![(0, 1), (0, 3), (0, 0), (0, 2)]);
    assert_eq!(plan(Some(Scale::Full), &suites), vec![(0, 0), (0, 2)]);
    assert_eq!(plan(Some(Scale::Tiny), &suites), vec![(0, 1), (0, 3)]);
    let codec = Suite {
        section: Section::Codec,
        tests: vec![test(Section::Codec, None, "c1"), test(Section::Codec, None, "c2")],
    };
    let both = vec![codec, mixed()];
    assert_eq!(
        plan(Some(Scale::Full), &both),
        vec![(0, 0), (0, 1), (1, 0), (1, 2)]
    );
    assert_eq!(plan(None, &Vec::new()), Vec::<(usize, usize)>::new());
}

#[test]
fn each_test_runs_once_or_is_skipped() {
    let r = Recorder::new();
    let codec = Suite {
        section: Section::Codec,
        tests: vec![test(Section::Codec, None, "c1")],
    };
    let summary = process(&r, Some(Scale::Tiny), &vec![codec, mixed()]).unwrap();
    assert_eq!(*r.seen.borrow(), vec!["c1", "t1", "t2"]);
    assert_eq!(summary, Summary { total: 5, run: 3, skipped: 2 });
}
