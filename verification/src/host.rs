//! The run operation: a key goes in, and one text comes out.
//!
//! A run looks the key up and, where a script is registered under it, starts
//! an invocation of that script. The lookup is over before the evaluation
//! begins, so the registry is free while a script runs.

use vstd::prelude::*;
use crate::engine::{program_text, EvaluationOutcome, Invocation};
use crate::registry::{
    entries_map, has_key, lemma_unset_key_is_absent, lookup, Registry, ScriptEntry,
};

verus! {

/// The text that a run of an unknown key answers with.
pub open spec fn not_found_text() -> Seq<char> {
    "Not Found"@
}

/// The program that a run of `key` evaluates, or `None` where no script is
/// registered under `key`.
pub open spec fn run_program(mapping: Map<Seq<char>, Seq<char>>, key: Seq<char>) -> Option<
    Seq<char>,
> {
    match lookup(mapping, key) {
        Some(source) => Some(program_text(source)),
        None => None,
    }
}

/// How a run ended.
#[derive(Debug, PartialEq, Eq)]
pub enum RunOutcome {
    /// No script is registered under the key.
    NotFound,
    /// The script was evaluated.
    Evaluated(EvaluationOutcome),
}

impl RunOutcome {
    /// The outcome as the one text that the caller of a run receives.
    pub open spec fn text(&self) -> Seq<char> {
        match self {
            RunOutcome::NotFound => not_found_text(),
            RunOutcome::Evaluated(outcome) => outcome.text(),
        }
    }

    /// The outcome as the one text that the caller of a run receives.
    pub fn to_text(&self) -> (text: String)
        ensures
            text@ == self.text(),
    {
        match self {
            RunOutcome::NotFound => "Not Found".to_owned(),
            RunOutcome::Evaluated(outcome) => outcome.to_text(),
        }
    }
}

/// Begins a run of `key`: starts an invocation of the script registered
/// under it, or answers `None` where there is none.
pub fn begin_run(registry: &Registry, key: &str) -> (started: Option<Invocation>)
    requires
        registry.wf(),
    ensures
        match started {
            Some(invocation) => run_program(registry@, key@) == Some(invocation@),
            None => run_program(registry@, key@) is None,
        },
{
    match registry.get(key) {
        Some(source) => Some(Invocation::start(source.as_str())),
        None => None,
    }
}

/// A run of a key that no `set` of the history names finds nothing.
pub proof fn lemma_run_of_unset_key_finds_nothing(history: Seq<ScriptEntry>, key: Seq<char>)
    requires
        !has_key(history, key),
    ensures
        run_program(entries_map(history), key) is None,
{
    lemma_unset_key_is_absent(history, key);
}

/// After a key has been set again, a run of it evaluates the program of the
/// later source and of no other.
pub proof fn lemma_run_after_set_again(
    before: Map<Seq<char>, Seq<char>>,
    key: Seq<char>,
    earlier: Seq<char>,
    later: Seq<char>,
)
    ensures
        run_program(before.insert(key, earlier).insert(key, later), key) == Some(
            program_text(later),
        ),
{
}

} // verus!
