use jslex::run::{elapsed_millis, next_stage, stages, Invocation, Rename, Stage, Trace};

fn invocation(fmt: bool, rename: Rename) -> Invocation {
    Invocation { filename: "a.js".to_string(), input: b"x".to_vec(), fmt, rename }
}

#[test]
fn trace_records_stages() {
    let mut t = Trace::new(false);
    assert_eq!(t.len(), 0);
    assert!(!t.record("parse", 3));
    assert!(!t.record("bind", 0));
    assert_eq!(t.len(), 2);
    let mut t = Trace::new(true);
    assert!(t.record("write", 12));
    assert_eq!(t.len(), 1);
}

#[test]
fn millis_of_a_duration() {
    assert_eq!(elapsed_millis(2, 345_678_901), 2345);
    assert_eq!(elapsed_millis(0, 999_999), 0);
    assert_eq!(elapsed_millis(0, 1_000_000), 1);
}

#[test]
fn stages_without_renaming() {
    let plan = stages(&invocation(false, Rename::Off));
    assert_eq!(
        plan,
        vec![Stage::Parse, Stage::Bind, Stage::Eval, Stage::Deblock, Stage::Write(false)]
    );
}

#[test]
fn stages_with_renaming() {
    let plan = stages(&invocation(true, Rename::On));
    assert_eq!(
        plan,
        vec![Stage::Parse, Stage::Bind, Stage::Eval, Stage::Rename(false), Stage::Deblock, Stage::Write(true)]
    );
    let plan = stages(&invocation(false, Rename::Debug));
    assert_eq!(plan[3], Stage::Rename(true));
    let labels: Vec<&str> = plan.iter().map(|s| s.label()).collect();
    assert_eq!(labels, vec!["parse", "bind", "eval", "rename", "deblock", "write"]);
}

#[test]
fn stepping_through_a_run() {
    let inv = invocation(true, Rename::Debug);
    let mut stage = Stage::Parse;
    let mut seen = vec![stage];
    while let Some(next) = next_stage(&inv, stage, true) {
        seen.push(next);
        stage = next;
    }
    assert_eq!(seen, stages(&inv));
    assert_eq!(next_stage(&inv, Stage::Parse, false), None);
    let off = invocation(false, Rename::Off);
    assert_eq!(next_stage(&off, Stage::Eval, true), Some(Stage::Deblock));
}
