//! What a command prints and exits with.

use crate::failure::{message, Failure};
use vstd::prelude::*;

verus! {

/// The lines that a command prints, and its exit code.
pub struct Outcome {
    pub stdout: Vec<String>,
    pub stderr: Vec<String>,
    pub code: u8,
}

/// The mathematical model of an outcome.
pub struct OutcomeModel {
    pub stdout: Seq<Seq<char>>,
    pub stderr: Seq<Seq<char>>,
    pub code: u8,
}

impl View for Outcome {
    type V = OutcomeModel;

    open spec fn view(&self) -> OutcomeModel {
        OutcomeModel {
            stdout: self.stdout.deep_view(),
            stderr: self.stderr.deep_view(),
            code: self.code,
        }
    }
}

/// One line of success.
pub open spec fn succeeded(line: Seq<char>) -> OutcomeModel {
    OutcomeModel { stdout: seq![line], stderr: Seq::empty(), code: 0 }
}

/// One line of an error.
pub open spec fn rejected(line: Seq<char>) -> OutcomeModel {
    OutcomeModel { stdout: Seq::empty(), stderr: seq![line], code: 1 }
}

/// The report of a failure.
pub open spec fn failed(failure: Failure) -> OutcomeModel {
    rejected(message(failure))
}

/// The outcome of one line of success.
pub fn success(line: String) -> (outcome: Outcome)
    ensures
        outcome@ == succeeded(line@),
{
    let ghost text = line@;
    let mut stdout: Vec<String> = Vec::new();
    stdout.push(line);
    let outcome = Outcome { stdout, stderr: Vec::new(), code: 0 };
    assert(outcome@.stdout =~= seq![text]);
    assert(outcome@.stderr =~= Seq::empty());
    outcome
}

/// The outcome of one line of an error.
pub fn rejection(line: String) -> (outcome: Outcome)
    ensures
        outcome@ == rejected(line@),
{
    let ghost text = line@;
    let mut stderr: Vec<String> = Vec::new();
    stderr.push(line);
    let outcome = Outcome { stdout: Vec::new(), stderr, code: 1 };
    assert(outcome@.stdout =~= Seq::empty());
    assert(outcome@.stderr =~= seq![text]);
    outcome
}

/// The outcome of a failure.
pub fn failure(reason: Failure) -> (outcome: Outcome)
    ensures
        outcome@ == failed(reason),
{
    rejection(reason.message())
}

/// A success is one line on standard output and exit code zero, an error one line on
/// standard error and exit code one, and never both.
pub proof fn outcomes_are_one_line(line: Seq<char>, failure: Failure)
    ensures
        succeeded(line).stdout == seq![line] && succeeded(line).stderr.len() == 0,
        succeeded(line).code == 0,
        rejected(line).stderr == seq![line] && rejected(line).stdout.len() == 0,
        rejected(line).code == 1,
        failed(failure).stderr == seq![message(failure)] && failed(failure).stdout.len() == 0,
        failed(failure).code == 1,
{
}

/// The model of an outcome is its lines, one for one and in order, and its exit code.
pub proof fn outcomes_are_shown_as_they_are(outcome: Outcome, i: int)
    ensures
        outcome@.code == outcome.code,
        outcome@.stdout.len() == outcome.stdout@.len(),
        outcome@.stderr.len() == outcome.stderr@.len(),
        0 <= i < outcome@.stdout.len() ==> outcome@.stdout[i] == outcome.stdout@[i]@,
        0 <= i < outcome@.stderr.len() ==> outcome@.stderr[i] == outcome.stderr@[i]@,
{
}

} // verus!
