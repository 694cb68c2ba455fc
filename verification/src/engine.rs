//! The execution engine, as far as it is decided here: which program an
//! invocation hands to the interpreter, and what its outcome reads as.
//!
//! The interpreter itself is not part of this library. An invocation is
//! started here, evaluated by the caller in a context made for it alone, and
//! finished here with what the interpreter gave back.

use vstd::prelude::*;
use vstd::string::*;

verus! {

/// The line number that an invocation's program starts at.
pub const STARTING_LINE: i32 = 1;

/// The program that runs `source`: the source as the body of a callable unit
/// without arguments, named `run` in every invocation, followed by one call
/// of that unit.
pub open spec fn program_text(source: Seq<char>) -> Seq<char> {
    "function run() { "@ + source + " }; run();"@
}

/// How the text of a thrown error is shown.
pub open spec fn error_text(message: Seq<char>) -> Seq<char> {
    "Error: "@ + message
}

/// The text of a thrown error begins with `Error: ` and goes on with the
/// error as the interpreter wrote it, whole and unchanged.
pub proof fn lemma_error_text_shape(message: Seq<char>)
    ensures
        error_text(message).len() == 7 + message.len(),
        error_text(message).take(7) == "Error: "@,
        error_text(message).skip(7) == message,
{
    reveal_strlit("Error: ");
}

/// The result of one invocation. It is handed to the caller and kept nowhere.
#[derive(Debug, PartialEq, Eq)]
pub enum EvaluationOutcome {
    /// The program returned; the field is the returned value as the
    /// interpreter writes it.
    Value(String),
    /// The program could not be parsed, or threw; the field is the thrown
    /// error as the interpreter writes it.
    Error(String),
}

impl EvaluationOutcome {
    /// The outcome as one text: a value as it is, an error behind `Error: `.
    pub open spec fn text(&self) -> Seq<char> {
        match self {
            EvaluationOutcome::Value(value) => value@,
            EvaluationOutcome::Error(message) => error_text(message@),
        }
    }

    /// The outcome as one text.
    pub fn to_text(&self) -> (text: String)
        ensures
            text@ == self.text(),
    {
        match self {
            EvaluationOutcome::Value(value) => value.clone(),
            EvaluationOutcome::Error(message) => {
                let mut text = "Error: ".to_owned();
                text.append(message.as_str());
                text
            },
        }
    }
}

/// An invocation that has been started and not yet finished.
///
/// It holds the program and nothing else, and `finish` uses it up: nothing
/// of one invocation is there for another to see.
#[derive(Debug)]
pub struct Invocation {
    program: String,
}

impl View for Invocation {
    type V = Seq<char>;

    /// The program that the invocation evaluates.
    closed spec fn view(&self) -> Seq<char> {
        self.program@
    }
}

impl Invocation {
    /// Starts an invocation of `source`.
    pub fn start(source: &str) -> (invocation: Invocation)
        ensures
            invocation@ == program_text(source@),
    {
        let mut program = "function run() { ".to_owned();
        program.append(source);
        program.append(" }; run();");
        Invocation { program }
    }

    /// The program to evaluate, from line `STARTING_LINE` on, in a context
    /// that no other invocation has used or will use.
    pub fn program(&self) -> (program: &str)
        ensures
            program@ == self@,
    {
        self.program.as_str()
    }

    /// Ends the invocation with what the interpreter gave back: `Ok` with the
    /// text of the value that the program returned, `Err` with the text of
    /// the error that it threw.
    pub fn finish(self, evaluation: Result<String, String>) -> (outcome: EvaluationOutcome)
        ensures
            match evaluation {
                Ok(value) => outcome == EvaluationOutcome::Value(value),
                Err(message) => outcome == EvaluationOutcome::Error(message),
            },
    {
        match evaluation {
            Ok(value) => EvaluationOutcome::Value(value),
            Err(message) => EvaluationOutcome::Error(message),
        }
    }
}

} // verus!
