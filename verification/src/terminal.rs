//! Lines that the user types at the terminal.

use vstd::prelude::*;
use vstd::string::*;

use crate::text::{eq_ignore_ascii_case, trimmed};
#[allow(unused_imports)]
use crate::text::{ascii_lowercase, trim};

verus! {

/// The word that ends the agent, in any case.
pub const EXIT_WORD: &'static str = "exit";

/// What the user is prompted with.
pub const PROMPT: &'static str = "Вы: ";

/// What the user is greeted with.
pub const BANNER: &'static str = "CLI Agent (Web + CLI) — Web UI на http://127.0.0.1:8080\nВведите 'exit' для выхода\n";

/// What the user is told at the end.
pub const FAREWELL: &'static str = "Пока!";

/// The file that keeps the lines typed.
pub const HISTORY_FILE: &'static str = ".cli_history";

/// The report that a line could not be read, up to the reason.
pub const READ_FAILURE: &'static str = "Ошибка ввода: ";

/// Whether a text is the word that ends the agent.
pub open spec fn is_exit(text: Seq<char>) -> bool {
    ascii_lowercase(text) == ascii_lowercase(EXIT_WORD@)
}

/// Tells whether a text is the word that ends the agent.
pub fn asks_to_exit(text: &str) -> (r: bool)
    ensures
        r == is_exit(text@),
{
    eq_ignore_ascii_case(text, EXIT_WORD)
}

/// What came of reading a line.
#[derive(Debug)]
pub enum Reading {
    /// A line.
    Line { text: String },
    /// The end of the input, or an interrupt.
    Ended,
    /// An error.
    Failed { error: String },
}

/// What is done with a reading. The first three keep the line, without the
/// white space round it, among those that the user can call up again.
#[derive(Debug)]
pub enum ReadAction {
    /// Hand the line to the agent and read on.
    Submit { line: String },
    /// Read on.
    Skip { line: String },
    /// Stop reading: the user wants to leave.
    Leave { line: String },
    /// Stop reading: there is nothing more.
    Stop,
    /// Report the error and stop reading.
    Fail { report: String },
}

/// What came of reading a line, as a mathematical value.
pub enum ReadingView {
    Line { text: Seq<char> },
    Ended,
    Failed { error: Seq<char> },
}

impl View for Reading {
    type V = ReadingView;

    open spec fn view(&self) -> ReadingView {
        match *self {
            Reading::Line { text } => ReadingView::Line { text: text@ },
            Reading::Ended => ReadingView::Ended,
            Reading::Failed { error } => ReadingView::Failed { error: error@ },
        }
    }
}

/// What is done with a reading, as a mathematical value.
pub enum ReadActionView {
    Submit { line: Seq<char> },
    Skip { line: Seq<char> },
    Leave { line: Seq<char> },
    Stop,
    Fail { report: Seq<char> },
}

impl View for ReadAction {
    type V = ReadActionView;

    open spec fn view(&self) -> ReadActionView {
        match *self {
            ReadAction::Submit { line } => ReadActionView::Submit { line: line@ },
            ReadAction::Skip { line } => ReadActionView::Skip { line: line@ },
            ReadAction::Leave { line } => ReadActionView::Leave { line: line@ },
            ReadAction::Stop => ReadActionView::Stop,
            ReadAction::Fail { report } => ReadActionView::Fail { report: report@ },
        }
    }
}

/// What follows from a reading.
pub open spec fn after_reading(reading: ReadingView) -> ReadActionView {
    match reading {
        ReadingView::Line { text } => {
            let line = trim(text);
            if is_exit(line) {
                ReadActionView::Leave { line }
            } else if line.len() == 0 {
                ReadActionView::Skip { line }
            } else {
                ReadActionView::Submit { line }
            }
        },
        ReadingView::Ended => ReadActionView::Stop,
        ReadingView::Failed { error } => ReadActionView::Fail { report: READ_FAILURE@ + error },
    }
}

/// Decides what is done with a reading.
pub fn on_reading(reading: Reading) -> (r: ReadAction)
    ensures
        r@ == after_reading(reading@),
{
    match reading {
        Reading::Line { text } => {
            let line: String = trimmed(text.as_str()).to_owned();
            if asks_to_exit(line.as_str()) {
                ReadAction::Leave { line }
            } else if line.as_str().is_empty() {
                ReadAction::Skip { line }
            } else {
                ReadAction::Submit { line }
            }
        },
        Reading::Ended => ReadAction::Stop,
        Reading::Failed { error } => ReadAction::Fail {
            report: READ_FAILURE.to_owned().concat(error.as_str()),
        },
    }
}

/// What reaches the agent from the terminal is never empty, never has white
/// space at either end and never is the word that ends it.
pub proof fn submitted_lines_are_real(reading: ReadingView)
    ensures
        after_reading(reading) matches ReadActionView::Submit { line } ==> line.len() > 0 && trim(
            line,
        ) == line && !is_exit(line),
{
    if let ReadingView::Line { text } = reading {
        crate::text_laws::trim_is_final(text);
    }
}

/// The word that ends the agent has four letters, each in either case, and
/// nothing else does.
pub proof fn the_exit_word_in_any_case(text: Seq<char>)
    ensures
        is_exit(text) <==> {
            &&& text.len() == 4
            &&& text[0] == 'e' || text[0] == 'E'
            &&& text[1] == 'x' || text[1] == 'X'
            &&& text[2] == 'i' || text[2] == 'I'
            &&& text[3] == 't' || text[3] == 'T'
        },
{
    reveal_strlit("exit");
    let word = EXIT_WORD@;
    crate::text_laws::lower_case_forgets_the_case_alone(text, word);
    assert(word.len() == 4);
    assert(word[0] == 'e' && word[1] == 'x' && word[2] == 'i' && word[3] == 't');
    if is_exit(text) {
        assert(text[0] == word[0] || 'A' <= text[0] <= 'Z');
        assert(text[1] == word[1] || 'A' <= text[1] <= 'Z');
        assert(text[2] == word[2] || 'A' <= text[2] <= 'Z');
        assert(text[3] == word[3] || 'A' <= text[3] <= 'Z');
    }
}

/// Whatever the user types is handed to the agent, whole but for the white
/// space round it, unless it is the word that ends the agent or nothing is left
/// of it; white space round a line makes no difference.
pub proof fn real_lines_are_submitted(text: Seq<char>, error: Seq<char>)
    ensures
        ({
            let line = trim(text);
            let action = after_reading(ReadingView::Line { text });
            &&& is_exit(line) ==> action == (ReadActionView::Leave { line })
            &&& line.len() == 0 ==> action == (ReadActionView::Skip { line })
            &&& line.len() > 0 && !is_exit(line) ==> action == (ReadActionView::Submit { line })
            &&& action == after_reading(ReadingView::Line { text: line })
        }),
        after_reading(ReadingView::Ended) is Stop,
        after_reading(ReadingView::Failed { error }) == (ReadActionView::Fail {
            report: "Ошибка ввода: "@ + error,
        }),
{
    crate::text_laws::trim_is_final(text);
    the_exit_word_in_any_case(trim(text));
}

} // verus!
