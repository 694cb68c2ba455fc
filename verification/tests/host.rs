use script_host::engine::EvaluationOutcome;
use script_host::host::{begin_run, RunOutcome};
use script_host::registry::{Registry, StoredSnapshot};

#[test]
fn run_of_a_key_never_set_finds_nothing() {
    let registry = Registry::new();
    assert!(begin_run(&registry, "add").is_none());
    let mut registry = Registry::new();
    registry.set("add".to_string(), "return 2 + 2;".to_string());
    assert!(begin_run(&registry, "sub").is_none());
}

#[test]
fn not_found_reads_not_found() {
    assert_eq!(RunOutcome::NotFound.to_text(), "Not Found");
}

#[test]
fn run_of_a_set_key_starts_its_program() {
    let mut registry = Registry::new();
    registry.set("hello".to_string(), "return 'hello';".to_string());
    let invocation = begin_run(&registry, "hello").unwrap();
    assert_eq!(invocation.program(), "function run() { return 'hello'; }; run();");
}

#[test]
fn add_script_runs_to_four() {
    let mut registry = Registry::new();
    registry.set("add".to_string(), "return 2 + 2;".to_string());
    let invocation = begin_run(&registry, "add").unwrap();
    assert_eq!(invocation.program(), "function run() { return 2 + 2; }; run();");
    let outcome = RunOutcome::Evaluated(invocation.finish(Ok("4".to_string())));
    assert_eq!(outcome.to_text(), "4");
}

#[test]
fn run_after_set_again_uses_only_the_new_source() {
    let mut registry = Registry::new();
    registry.set("job".to_string(), "return 'old';".to_string());
    registry.set("job".to_string(), "return 'new';".to_string());
    let invocation = begin_run(&registry, "job").unwrap();
    assert_eq!(invocation.program(), "function run() { return 'new'; }; run();");
}

#[test]
fn run_of_a_throwing_script_reads_as_an_error() {
    let mut registry = Registry::new();
    registry.set("bad".to_string(), "throw new Error('boom');".to_string());
    let invocation = begin_run(&registry, "bad").unwrap();
    let outcome = RunOutcome::Evaluated(invocation.finish(Err("Error: boom".to_string())));
    assert_eq!(outcome.to_text(), "Error: Error: boom");
}

#[test]
fn run_does_not_change_the_registry() {
    let mut registry = Registry::new();
    registry.set("a".to_string(), "return 1;".to_string());
    let before = registry.snapshot();
    let _ = begin_run(&registry, "a");
    let _ = begin_run(&registry, "b");
    assert_eq!(registry.snapshot(), before);
}

#[test]
fn second_run_starts_from_the_same_program_as_the_first() {
    let mut registry = Registry::new();
    registry.set("count".to_string(), "n = (this.n || 0) + 1; return n;".to_string());
    let first = begin_run(&registry, "count").unwrap();
    let first_program = first.program().to_string();
    let first_outcome = RunOutcome::Evaluated(first.finish(Ok("1".to_string())));
    let second = begin_run(&registry, "count").unwrap();
    assert_eq!(second.program(), first_program);
    let second_outcome = RunOutcome::Evaluated(second.finish(Ok("1".to_string())));
    assert_eq!(first_outcome.to_text(), second_outcome.to_text());
}

#[test]
fn a_script_that_returns_the_not_found_text_is_still_told_apart() {
    let evaluated = RunOutcome::Evaluated(EvaluationOutcome::Value("Not Found".to_string()));
    assert_eq!(evaluated.to_text(), RunOutcome::NotFound.to_text());
    assert_ne!(evaluated, RunOutcome::NotFound);
}

#[test]
fn run_after_reload_finds_what_was_set_before() {
    let mut registry = Registry::new();
    registry.set("add".to_string(), "return 2 + 2;".to_string());
    let reloaded = Registry::load(StoredSnapshot::Parsed(registry.snapshot())).unwrap();
    let invocation = begin_run(&reloaded, "add").unwrap();
    assert_eq!(invocation.program(), "function run() { return 2 + 2; }; run();");
    assert!(begin_run(&reloaded, "sub").is_none());
}
