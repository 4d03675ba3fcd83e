//! What the agent makes of a command that it has run.

use vstd::prelude::*;
use vstd::string::*;
#[allow(unused_imports)]
use vstd::utf8::*;

use crate::outside::utf8_lossy;
#[allow(unused_imports)]
use crate::outside::lossy_text;

verus! {

/// The text that a process has written.
pub open spec fn decoded(bytes: Seq<u8>) -> Seq<char> {
    if valid_utf8(bytes) {
        decode_utf8(bytes)
    } else {
        lossy_text(bytes)
    }
}

/// Decodes the text that a process has written.
pub fn decode(bytes: &[u8]) -> (r: String)
    ensures
        r@ == decoded(bytes@),
{
    utf8_lossy(bytes)
}

/// The report on a command that has ended: its output where it succeeded, and
/// where it failed its status, its error output and its output.
pub open spec fn ended(
    success: bool,
    status: Seq<char>,
    stdout: Seq<char>,
    stderr: Seq<char>,
) -> Seq<char> {
    if success {
        if stdout.len() == 0 {
            "(команда выполнена без вывода)"@
        } else {
            stdout
        }
    } else {
        let failure = "Команда завершилась с ошибкой (код "@ + status + "):\n"@ + stderr;
        if stdout.len() == 0 {
            failure
        } else {
            failure + "\nStdout:\n"@ + stdout
        }
    }
}

/// Writes the report on a command that has ended.
pub fn ended_text(success: bool, status: &str, stdout: &str, stderr: &str) -> (r: String)
    ensures
        r@ == ended(success, status@, stdout@, stderr@),
{
    if success {
        if stdout.is_empty() {
            "(команда выполнена без вывода)".to_owned()
        } else {
            stdout.to_owned()
        }
    } else {
        let mut out: String = "Команда завершилась с ошибкой (код ".to_owned();
        out.append(status);
        out.append("):\n");
        out.append(stderr);
        if !stdout.is_empty() {
            out.append("\nStdout:\n");
            out.append(stdout);
        }
        out
    }
}

/// How a command went.
#[derive(Debug)]
pub enum CommandOutcome {
    /// It ran to its end.
    Ended { success: bool, status: String, stdout: Vec<u8>, stderr: Vec<u8> },
    /// It could not be run.
    NotRun { error: String },
}

/// The report on a command.
pub open spec fn report(outcome: CommandOutcome) -> Seq<char> {
    match outcome {
        CommandOutcome::Ended { success, status, stdout, stderr } => ended(
            success,
            status@,
            decoded(stdout@),
            decoded(stderr@),
        ),
        CommandOutcome::NotRun { error } => "Не удалось выполнить команду: "@ + error@,
    }
}

/// Writes the report on a command.
pub fn command_report(outcome: &CommandOutcome) -> (r: String)
    ensures
        r@ == report(*outcome),
{
    match outcome {
        CommandOutcome::Ended { success, status, stdout, stderr } => {
            let out: String = decode(stdout.as_slice());
            let err: String = decode(stderr.as_slice());
            ended_text(*success, status.as_str(), out.as_str(), err.as_str())
        },
        CommandOutcome::NotRun { error } => "Не удалось выполнить команду: ".to_owned().concat(
            error.as_str(),
        ),
    }
}

/// No report is empty: the model is always told something of a command.
pub proof fn no_report_is_empty(outcome: CommandOutcome)
    ensures
        report(outcome).len() > 0,
{
    reveal_strlit("(команда выполнена без вывода)");
    reveal_strlit("Команда завершилась с ошибкой (код ");
    reveal_strlit("Не удалось выполнить команду: ");
}

/// A command that succeeded is told by what it wrote, whole and unchanged, and
/// by nothing else; only where it wrote nothing does something stand for that.
pub proof fn output_is_told_whole(status: Seq<char>, stdout: Seq<char>, stderr: Seq<char>)
    ensures
        stdout.len() > 0 ==> ended(true, status, stdout, stderr) == stdout,
        stdout.len() == 0 ==> ended(true, status, stdout, stderr)
            == "(команда выполнена без вывода)"@,
{
}

/// A command that failed is told by its status, then all that it wrote of
/// errors, and then, where there is any, all its output, which ends the report.
pub proof fn a_failure_is_told_whole(status: Seq<char>, stdout: Seq<char>, stderr: Seq<char>)
    ensures
        ended(false, status, stdout, stderr) == ended(false, status, Seq::empty(), stderr) + if stdout.len()
            > 0 {
            "\nStdout:\n"@ + stdout
        } else {
            Seq::empty()
        },
        ended(false, status, Seq::empty(), stderr) == ended(
            false,
            status,
            Seq::empty(),
            Seq::empty(),
        ) + stderr,
        ended(false, status, Seq::empty(), Seq::empty()) == "Команда завершилась с ошибкой (код "@
            + status + "):\n"@,
{
    let bare = "Команда завершилась с ошибкой (код "@ + status + "):\n"@;
    assert(bare + Seq::<char>::empty() =~= bare);
    assert(bare + stderr + Seq::<char>::empty() =~= bare + stderr);
    assert(bare + stderr + "\nStdout:\n"@ + stdout =~= bare + stderr + ("\nStdout:\n"@ + stdout));
}

/// A process that writes a text in UTF-8 is taken to have written that text.
pub proof fn written_text_is_decoded(text: Seq<char>)
    ensures
        decoded(encode_utf8(text)) == text,
{
    encode_utf8_valid_utf8(text);
    encode_utf8_decode_utf8(text);
}

/// A command is reported by what it has written, decoded, or by the reason why
/// it could not be run.
pub proof fn outcomes_are_reported(
    success: bool,
    status: String,
    stdout: Vec<u8>,
    stderr: Vec<u8>,
    error: String,
)
    ensures
        report(CommandOutcome::Ended { success, status, stdout, stderr }) == ended(
            success,
            status@,
            decoded(stdout@),
            decoded(stderr@),
        ),
        report(CommandOutcome::NotRun { error }) == "Не удалось выполнить команду: "@ + error@,
        !valid_utf8(stdout@) ==> decoded(stdout@) == lossy_text(stdout@),
{
}

} // verus!
